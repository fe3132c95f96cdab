//! What holds of bundles, storage and routing as a whole.

use vstd::prelude::*;

use crate::ident::Id;
use crate::network::client::ids_of;
use crate::network::client::SummaryError;
use crate::network::server::{PeerRecord, PeerRecordView, ServerResponse};
use crate::routing::ack::ack_of;
use crate::routing::bundle_manager::{after_ack, received_ack, BundleManager};
use crate::routing::engine::{
    held_after_receipt, known_peers, known_summary, left_pending, missing_on_peer, pass_from, pass_transfers, peer_endpoint,
    pending_bundles, reach_next, received, route_next, route_transfers, routed, some_written,
    transfer_views, transfers_to_peer, Reach, RouteEvent, RouteEventView, RouteState, RouteStateView,
    Routed, RoutingEngine, Transfer, TransferView,
};
use crate::routing::model::{
    bundle_views, fresh_bundle, named_node, Bundle, BundleKind, BundleKindView, BundleView, MsgStatus, Node, NodeView,
};
use crate::routing::scf::{overdue_at, without_overdue};
use crate::routing::storage::{
    deleted, deleted_removes_one, holds_id, ids_distinct, lookup, put, saved, saved_is_held, updated,
};
use crate::sequences::{filter_all, filter_keeps_order, filter_members, filter_none};
use crate::text::endpoint_text;
use crate::time::{elapsed_seconds, elapsed_seconds_grow, is_clock_reading, Timestamp};

verus! {

/// Separate processes agree on who a node is: its name alone decides its
/// identifier.
pub proof fn name_decides_the_id(
    name: Seq<char>,
    address: Seq<char>,
    port: u16,
    peers: Seq<Id>,
    other_address: Seq<char>,
    other_port: u16,
    other_peers: Seq<Id>,
)
    ensures
        named_node(name, address, port, peers).id == named_node(
            name,
            other_address,
            other_port,
            other_peers,
        ).id,
{
}

/// A bundle is expired once its age in seconds exceeds its time to live.
pub proof fn expired_means_older_than_ttl(bundle: BundleView, now: Timestamp)
    ensures
        bundle.expired_at(now) <==> elapsed_seconds(now, bundle.timestamp) > bundle.ttl,
{
}

/// A bundle is dropped once its age in seconds exceeds its time to live, which is
/// when it is expired.
pub proof fn overdue_means_older_than_ttl(bundle: BundleView, now: Timestamp)
    ensures
        overdue_at(bundle, now) <==> elapsed_seconds(now, bundle.timestamp) > bundle.ttl,
        overdue_at(bundle, now) <==> bundle.expired_at(now),
{
}

/// A bundle is not expired at the moment of its making, nor at any earlier one,
/// whatever its time to live.
pub proof fn new_bundle_is_not_expired(bundle: BundleView, now: Timestamp)
    requires
        elapsed_seconds(now, bundle.timestamp) <= 0,
    ensures
        !bundle.expired_at(now),
        !overdue_at(bundle, now),
{
}

/// A bundle that was not made inside a leap second stays expired once it is.
pub proof fn expired_for_good(bundle: BundleView, now: Timestamp, later: Timestamp)
    requires
        bundle.timestamp.valid(),
        bundle.timestamp.spec_nanos() < 1_000_000_000,
        is_clock_reading(now),
        is_clock_reading(later),
        now.spec_secs() < later.spec_secs() || (now.spec_secs() == later.spec_secs()
            && now.spec_nanos() <= later.spec_nanos()),
        bundle.expired_at(now),
    ensures
        bundle.expired_at(later),
{
    elapsed_seconds_grow(bundle.timestamp, now, later);
}

/// What is looked up is the one bundle with the identifier.
pub proof fn lookup_finds(held: Seq<BundleView>, i: int)
    requires
        ids_distinct(held),
        0 <= i < held.len(),
    ensures
        lookup(held, held[i].id) == Some(held[i]),
{
    assert(holds_id(held, held[i].id));
    let j = choose|j: int| 0 <= j < held.len() && (#[trigger] held[j]).id == held[i].id;
    assert(held[j].id == held[i].id);
}

/// Nothing is looked up where the identifier is not held.
pub proof fn lookup_fails(held: Seq<BundleView>, id: Id)
    ensures
        lookup(held, id) is None <==> !holds_id(held, id),
        lookup(held, id) matches Some(bundle) ==> bundle.id == id,
{
    if holds_id(held, id) {
        let j = choose|j: int| 0 <= j < held.len() && (#[trigger] held[j]).id == id;
        assert(held[j].id == id);
    }
}

/// Saving reads back: a bundle that is new is found, one that is held stays as it
/// is, and no other is touched. No identifier comes to be held twice.
pub proof fn saved_is_found(held: Seq<BundleView>, bundle: BundleView, id: Id)
    requires
        ids_distinct(held),
    ensures
        ids_distinct(saved(held, bundle)),
        lookup(saved(held, bundle), id) == (if id == bundle.id && !holds_id(held, id) {
            Some(bundle)
        } else {
            lookup(held, id)
        }),
{
    if !holds_id(held, bundle.id) {
        let after = saved(held, bundle);
        assert(after == held.push(bundle));
        assert forall|i: int, j: int|
            0 <= i < after.len() && 0 <= j < after.len() && (#[trigger] after[i]).id == (
            #[trigger] after[j]).id implies i == j by {
            if i < held.len() && j == held.len() {
                assert(held[i].id == bundle.id);
            }
            if j < held.len() && i == held.len() {
                assert(held[j].id == bundle.id);
            }
        }
        if id == bundle.id {
            lookup_finds(after, held.len() as int);
        } else if holds_id(held, id) {
            let j = choose|j: int| 0 <= j < held.len() && (#[trigger] held[j]).id == id;
            lookup_finds(held, j);
            assert(after[j] == held[j]);
            lookup_finds(after, j);
        } else {
            if holds_id(after, id) {
                let j = choose|j: int| 0 <= j < after.len() && (#[trigger] after[j]).id == id;
                assert(held[j].id == id);
            }
        }
    }
}

/// Updating reads back: a bundle that is held is replaced, and no other is
/// touched. No identifier comes to be held twice, and none comes or goes.
pub proof fn updated_is_found(held: Seq<BundleView>, bundle: BundleView, id: Id)
    requires
        ids_distinct(held),
    ensures
        ids_distinct(updated(held, bundle)),
        holds_id(updated(held, bundle), id) <==> holds_id(held, id),
        lookup(updated(held, bundle), id) == (if id == bundle.id && holds_id(held, id) {
            Some(bundle)
        } else {
            lookup(held, id)
        }),
{
    let after = updated(held, bundle);
    assert(forall|i: int| 0 <= i < held.len() ==> (#[trigger] after[i]).id == held[i].id);
    assert(after.len() == held.len());
    if holds_id(held, id) {
        let j = choose|j: int| 0 <= j < held.len() && (#[trigger] held[j]).id == id;
        lookup_finds(held, j);
        assert(after[j].id == id);
        lookup_finds(after, j);
    } else if holds_id(after, id) {
        let j = choose|j: int| 0 <= j < after.len() && (#[trigger] after[j]).id == id;
        assert(held[j].id == id);
    }
}

/// Putting reads back: the bundle is found under its identifier, and no other is
/// touched. No identifier comes to be held twice.
pub proof fn put_is_found(held: Seq<BundleView>, bundle: BundleView, id: Id)
    requires
        ids_distinct(held),
    ensures
        ids_distinct(put(held, bundle)),
        lookup(put(held, bundle), id) == (if id == bundle.id {
            Some(bundle)
        } else {
            lookup(held, id)
        }),
{
    if holds_id(held, bundle.id) {
        updated_is_found(held, bundle, id);
    } else {
        saved_is_found(held, bundle, id);
    }
}

/// Deleting takes out the bundle with the identifier and no other. No identifier
/// comes to be held twice.
pub proof fn deleted_is_gone(held: Seq<BundleView>, deleted_id: Id, id: Id)
    requires
        ids_distinct(held),
    ensures
        ids_distinct(deleted(held, deleted_id)),
        lookup(deleted(held, deleted_id), id) == (if id == deleted_id {
            None
        } else {
            lookup(held, id)
        }),
{
    let after = deleted(held, deleted_id);
    if holds_id(held, deleted_id) {
        let at = choose|j: int| 0 <= j < held.len() && (#[trigger] held[j]).id == deleted_id;
        deleted_removes_one(held, deleted_id, at);
        assert(after == held.remove(at));
        assert(forall|i: int|
            0 <= i < after.len() ==> (#[trigger] after[i]) == held[if i < at { i } else { i + 1 }]);
        if id == deleted_id {
            if holds_id(after, id) {
                let j = choose|j: int| 0 <= j < after.len() && (#[trigger] after[j]).id == id;
                assert(held[if j < at { j } else { j + 1 }].id == held[at].id);
            }
        } else if holds_id(held, id) {
            let j = choose|j: int| 0 <= j < held.len() && (#[trigger] held[j]).id == id;
            lookup_finds(held, j);
            let k = if j < at { j } else { j - 1 };
            assert(after[k] == held[j]);
            lookup_finds(after, k);
        } else if holds_id(after, id) {
            let j = choose|j: int| 0 <= j < after.len() && (#[trigger] after[j]).id == id;
            assert(held[if j < at { j } else { j + 1 }].id == id);
        }
    } else {
        assert forall|i: int| 0 <= i < held.len() implies (#[trigger] held[i]).id != deleted_id by {
            assert(!holds_id(held, deleted_id));
        }
        filter_all(held, |other: BundleView| other.id != deleted_id);
        assert(after == held);
        lookup_fails(held, id);
    }
}

/// A bundle that was new and is deleted again leaves no trace.
pub proof fn save_then_delete(held: Seq<BundleView>, bundle: BundleView)
    requires
        ids_distinct(held),
        !holds_id(held, bundle.id),
    ensures
        deleted(saved(held, bundle), bundle.id) == held,
{
    saved_is_found(held, bundle, bundle.id);
    let after = saved(held, bundle);
    assert(after[held.len() as int].id == bundle.id);
    deleted_removes_one(after, bundle.id, held.len() as int);
    assert(after.remove(held.len() as int) =~= held);
}

/// Dropping leaves exactly the bundles that are not overdue, and dropping again at
/// the same moment changes nothing.
pub proof fn dropped_are_overdue(held: Seq<BundleView>, now: Timestamp, bundle: BundleView)
    ensures
        without_overdue(held, now).contains(bundle) <==> held.contains(bundle) && !overdue_at(
            bundle,
            now,
        ),
        without_overdue(without_overdue(held, now), now) == without_overdue(held, now),
{
    let keep = |other: BundleView| !overdue_at(other, now);
    filter_members(held, keep, bundle);
    let kept = without_overdue(held, now);
    assert forall|i: int| 0 <= i < kept.len() implies keep(#[trigger] kept[i]) by {
        filter_members(held, keep, kept[i]);
        assert(kept.contains(kept[i]));
    }
    filter_all(kept, keep);
}

/// The acknowledgement of an acknowledgement travels as the data did.
pub proof fn ack_of_ack_goes_forward(
    data: BundleView,
    first: Id,
    first_time: Timestamp,
    second: Id,
    second_time: Timestamp,
)
    ensures
        ack_of(ack_of(data, first, first_time), second, second_time).source == data.source,
        ack_of(ack_of(data, first, first_time), second, second_time).destination
            == data.destination,
        ack_of(ack_of(data, first, first_time), second, second_time).ttl == data.ttl,
{
}

/// When the acknowledgement of a bundle reaches the node that sent the bundle,
/// the bundle is held there no longer, the acknowledgement is delivered, and no
/// other bundle is touched.
pub proof fn ack_clears_the_bundle(
    held: Seq<BundleView>,
    data: BundleView,
    ack_id: Id,
    ack_time: Timestamp,
    now: Timestamp,
    other: Id,
)
    requires
        ids_distinct(held),
        data.source.id != data.destination.id,
        other != data.id,
        other != ack_id,
    ensures
        ({
            let after = routed(data.source.id, held, ack_of(data, ack_id, ack_time), now);
            &&& after.bundle.shipment_status == MsgStatus::Delivered
            &&& after.next is FloodAck
            &&& !holds_id(after.held, data.id)
            &&& lookup(after.held, other) == lookup(held, other)
        }),
{
    let ack = ack_of(data, ack_id, ack_time);
    let node_id = data.source.id;
    let stored = saved(held, ack);
    let cleared = deleted(stored, data.id);
    let noted = received_ack(ack, node_id);
    saved_is_found(held, ack, other);
    deleted_is_gone(stored, data.id, other);
    deleted_is_gone(stored, data.id, data.id);
    updated_is_found(cleared, noted, other);
    updated_is_found(cleared, noted, data.id);
    lookup_fails(cleared, data.id);
}

/// An acknowledgement that comes to the node that made it is not kept there, and
/// goes no further.
pub proof fn own_ack_is_dropped(
    node_id: Id,
    held: Seq<BundleView>,
    ack: BundleView,
    now: Timestamp,
)
    requires
        ids_distinct(held),
        ack.kind is Ack,
        ack.source.id == node_id,
    ensures
        routed(node_id, held, ack, now).next is Finished,
        !holds_id(routed(node_id, held, ack, now).held, ack.id),
{
    saved_is_found(held, ack, ack.id);
    deleted_is_gone(saved(held, ack), ack.id, ack.id);
    lookup_fails(deleted(saved(held, ack), ack.id), ack.id);
}

/// A bundle that is no acknowledgement and has reached its destination is held
/// there as delivered, and goes no further.
pub proof fn delivered_at_destination(
    node_id: Id,
    held: Seq<BundleView>,
    bundle: BundleView,
    now: Timestamp,
)
    requires
        ids_distinct(held),
        !(bundle.kind is Ack),
        bundle.destination.id == node_id,
    ensures
        routed(node_id, held, bundle, now).next is Finished,
        lookup(routed(node_id, held, bundle, now).held, bundle.id) == Some(
            bundle.with_status(MsgStatus::Delivered),
        ),
{
    saved_is_held(held, bundle);
    saved_is_found(held, bundle, bundle.id);
    updated_is_found(
        saved(held, bundle),
        bundle.with_status(MsgStatus::Delivered),
        bundle.id,
    );
}

/// A bundle that is no acknowledgement, is not for the node and is expired is held
/// as expired, and goes no further.
pub proof fn expired_goes_no_further(
    node_id: Id,
    held: Seq<BundleView>,
    bundle: BundleView,
    now: Timestamp,
)
    requires
        ids_distinct(held),
        !(bundle.kind is Ack),
        bundle.destination.id != node_id,
        bundle.expired_at(now),
    ensures
        routed(node_id, held, bundle, now).next is Finished,
        lookup(routed(node_id, held, bundle, now).held, bundle.id) == Some(
            bundle.with_status(MsgStatus::Expired),
        ),
{
    saved_is_held(held, bundle);
    saved_is_found(held, bundle, bundle.id);
    updated_is_found(saved(held, bundle), bundle.with_status(MsgStatus::Expired), bundle.id);
}

/// Routing a bundle touches no other bundle, but for the one that an
/// acknowledgement names.
pub proof fn routing_leaves_others(
    node_id: Id,
    held: Seq<BundleView>,
    bundle: BundleView,
    now: Timestamp,
    other: Id,
)
    requires
        ids_distinct(held),
        other != bundle.id,
        bundle.kind matches BundleKindView::Ack { ack_bundle_id } ==> other != ack_bundle_id,
    ensures
        ids_distinct(routed(node_id, held, bundle, now).held),
        lookup(routed(node_id, held, bundle, now).held, other) == lookup(held, other),
{
    let stored = saved(held, bundle);
    saved_is_found(held, bundle, other);
    match bundle.kind {
        BundleKindView::Ack { ack_bundle_id } => {
            deleted_is_gone(stored, bundle.id, other);
            deleted_is_gone(stored, ack_bundle_id, other);
            updated_is_found(
                deleted(stored, ack_bundle_id),
                received_ack(bundle, node_id),
                other,
            );
        },
        _ => {
            updated_is_found(stored, bundle.with_status(MsgStatus::Delivered), other);
            updated_is_found(stored, bundle.with_status(MsgStatus::Expired), other);
        },
    }
}

/// A bundle that is received unexpired is held from then on: as delivered at its
/// destination, as in transit at a relay. An expired one changes nothing that is
/// held. No other bundle is touched.
pub proof fn receipt_is_recorded(
    node_id: Id,
    held: Seq<BundleView>,
    bundle: BundleView,
    now: Timestamp,
    other: Id,
)
    requires
        ids_distinct(held),
        other != bundle.id,
    ensures
        ({
            let after = held_after_receipt(node_id, held, bundle, now);
            &&& ids_distinct(after)
            &&& bundle.expired_at(now) ==> after == held
            &&& !bundle.expired_at(now) ==> lookup(after, bundle.id) == Some(
                bundle.with_status(
                    if node_id == bundle.destination.id {
                        MsgStatus::Delivered
                    } else {
                        MsgStatus::InTransit
                    },
                ),
            )
            &&& lookup(after, other) == lookup(held, other)
        }),
{
    put_is_found(held, received(node_id, bundle, now), bundle.id);
    put_is_found(held, received(node_id, bundle, now), other);
}

/// What anti-entropy picks is what the node has and the peer lacks: nothing that
/// the peer holds is sent, and nothing that it lacks is left out.
pub proof fn anti_entropy_is_exact(local: Seq<BundleView>, peer_sv: Seq<Id>, bundle: BundleView)
    ensures
        missing_on_peer(local, peer_sv).contains(bundle) <==> local.contains(bundle)
            && !peer_sv.contains(bundle.id),
{
    filter_members(local, |other: BundleView| !peer_sv.contains(other.id), bundle);
}

/// Once a peer has received what it lacked, it lacks nothing: a second exchange
/// sends nothing.
pub proof fn anti_entropy_settles(local: Seq<BundleView>, peer_sv: Seq<Id>)
    ensures
        missing_on_peer(
            local,
            peer_sv + ids_of(missing_on_peer(local, peer_sv)),
        ) == Seq::<BundleView>::empty(),
{
    let missing = missing_on_peer(local, peer_sv);
    let after = peer_sv + ids_of(missing);
    let keep = |other: BundleView| !after.contains(other.id);
    assert forall|i: int| 0 <= i < local.len() implies !keep(#[trigger] local[i]) by {
        let id = local[i].id;
        if peer_sv.contains(id) {
            let j = choose|j: int| 0 <= j < peer_sv.len() && peer_sv[j] == id;
            assert(after[j] == id);
        } else {
            assert(local.contains(local[i]));
            anti_entropy_is_exact(local, peer_sv, local[i]);
            let j = choose|j: int| 0 <= j < missing.len() && missing[j] == local[i];
            assert(ids_of(missing)[j] == id);
            assert(after[peer_sv.len() + j] == id);
        }
    }
    filter_none(local, keep);
}

/// What a peer is sent in a forwarding pass: exactly the pending bundles that its
/// summary vector does not name, each in the node's name and to its endpoint.
pub proof fn peer_gets_what_it_lacks(
    node_id: Id,
    pending: Seq<BundleView>,
    peer: PeerRecordView,
    peer_sv: Seq<Id>,
    transfer: TransferView,
)
    ensures
        transfers_to_peer(node_id, pending, peer, peer_sv).contains(transfer) <==> {
            &&& transfer.source_id == node_id
            &&& transfer.destination == peer_endpoint(peer)
            &&& pending.contains(transfer.bundle)
            &&& !peer_sv.contains(transfer.bundle.id)
        },
{
    let missing = missing_on_peer(pending, peer_sv);
    let transfers = transfers_to_peer(node_id, pending, peer, peer_sv);
    anti_entropy_is_exact(pending, peer_sv, transfer.bundle);
    if transfers.contains(transfer) {
        let i = choose|i: int| 0 <= i < transfers.len() && transfers[i] == transfer;
        assert(missing[i] == transfer.bundle);
    }
    if missing.contains(transfer.bundle) && transfer.source_id == node_id && transfer.destination
        == peer_endpoint(peer) {
        let i = choose|i: int| 0 <= i < missing.len() && missing[i] == transfer.bundle;
        assert(transfers[i] == transfer);
    }
}

/// A forwarding pass sends to each peer what that peer lacks, and nothing else.
pub proof fn pass_serves_every_peer(
    node_id: Id,
    pending: Seq<BundleView>,
    peers: Seq<PeerRecordView>,
    summaries: Seq<Seq<Id>>,
    transfer: TransferView,
)
    requires
        summaries.len() <= peers.len(),
    ensures
        pass_transfers(node_id, pending, peers, summaries).contains(transfer) <==> exists|k: int|
            0 <= k < summaries.len() && (#[trigger] transfers_to_peer(
                node_id,
                pending,
                peers[k],
                summaries[k],
            )).contains(transfer),
    decreases summaries.len(),
{
    let all = pass_transfers(node_id, pending, peers, summaries);
    if summaries.len() > 0 {
        let init = summaries.drop_last();
        let last = summaries.len() - 1;
        let before = pass_transfers(node_id, pending, peers, init);
        let step = transfers_to_peer(node_id, pending, peers[last], summaries[last]);
        pass_serves_every_peer(node_id, pending, peers, init, transfer);
        assert(all == before + step);
        if all.contains(transfer) {
            let i = choose|i: int| 0 <= i < all.len() && all[i] == transfer;
            if i < before.len() {
                assert(before[i] == transfer);
                let k = choose|k: int|
                    0 <= k < init.len() && (#[trigger] transfers_to_peer(
                        node_id,
                        pending,
                        peers[k],
                        init[k],
                    )).contains(transfer);
                assert(init[k] == summaries[k]);
            } else {
                assert(step[i - before.len()] == transfer);
            }
        }
        if exists|k: int|
            0 <= k < summaries.len() && (#[trigger] transfers_to_peer(
                node_id,
                pending,
                peers[k],
                summaries[k],
            )).contains(transfer) {
            let k = choose|k: int|
                0 <= k < summaries.len() && (#[trigger] transfers_to_peer(
                    node_id,
                    pending,
                    peers[k],
                    summaries[k],
                )).contains(transfer);
            if k < last {
                assert(init[k] == summaries[k]);
                assert(transfers_to_peer(node_id, pending, peers[k], init[k]).contains(transfer));
                let i = choose|i: int| 0 <= i < before.len() && before[i] == transfer;
                assert(all[i] == transfer);
            } else {
                let i = choose|i: int| 0 <= i < step.len() && step[i] == transfer;
                assert(all[before.len() + i] == transfer);
            }
        }
    }
}

/// Where the routing of a bundle stands after a number of answers.
pub open spec fn route_after(start: Routed, events: Seq<RouteEventView>) -> Routed
    decreases events.len(),
{
    if events.len() == 0 {
        start
    } else {
        route_next(route_after(start, events.drop_last()), events.last())
    }
}

/// What was sent in the routing of a bundle after a number of answers.
pub open spec fn sent_after(node_id: Id, start: Routed, events: Seq<RouteEventView>) -> Seq<
    TransferView,
>
    decreases events.len(),
{
    if events.len() == 0 {
        Seq::empty()
    } else {
        sent_after(node_id, start, events.drop_last()) + route_transfers(
            node_id,
            route_after(start, events.drop_last()),
            events.last(),
        )
    }
}

/// What happens in a forwarding pass: the registry names the connected nodes, and
/// the first of these give their summary vectors in turn, each followed by word of
/// what was written to it.
pub open spec fn pass_events(
    peers: Seq<PeerRecordView>,
    summaries: Seq<Seq<Id>>,
    written: Seq<Seq<bool>>,
) -> Seq<RouteEventView>
    decreases summaries.len(),
{
    if summaries.len() == 0 {
        seq![RouteEventView::Registry(peers)]
    } else {
        pass_events(peers, summaries.drop_last(), written.drop_last()).push(
            RouteEventView::Summary(summaries.last()),
        ).push(RouteEventView::Sent(written.last()))
    }
}

/// Whether a bundle with a given identifier was written to one of the nodes that
/// gave their summary vectors.
pub open spec fn reached_some(
    pending: Seq<BundleView>,
    summaries: Seq<Seq<Id>>,
    written: Seq<Seq<bool>>,
    id: Id,
) -> bool {
    exists|k: int|
        0 <= k < summaries.len() && #[trigger] some_written(
            ids_of(missing_on_peer(pending, summaries[k])),
            written[k],
            id,
        )
}

/// Whether one of the nodes that gave their summary vectors lacks a bundle with a
/// given identifier.
pub open spec fn lacked_by_some(summaries: Seq<Seq<Id>>, id: Id) -> bool {
    exists|k: int| 0 <= k < summaries.len() && !(#[trigger] summaries[k]).contains(id)
}

/// How far a bundle with a given identifier has got once some nodes gave their
/// summary vectors and were sent what they lacked.
pub open spec fn pass_reach(
    pending: Seq<BundleView>,
    summaries: Seq<Seq<Id>>,
    written: Seq<Seq<bool>>,
    id: Id,
) -> Reach {
    if reached_some(pending, summaries, written, id) {
        Reach::Reached
    } else if holds_id(pending, id) && lacked_by_some(summaries, id) {
        Reach::Missed
    } else {
        Reach::Unoffered
    }
}

/// What is said to have been written is said of the transfers, in their order: the
/// bundles that were offered are those that go out.
pub proof fn offered_are_the_transfers(
    node_id: Id,
    pending: Seq<BundleView>,
    peer: PeerRecordView,
    peer_sv: Seq<Id>,
)
    ensures
        ids_of(missing_on_peer(pending, peer_sv)) == transfers_to_peer(
            node_id,
            pending,
            peer,
            peer_sv,
        ).map_values(|transfer: TransferView| transfer.bundle.id),
{
    assert(ids_of(missing_on_peer(pending, peer_sv)) =~= transfers_to_peer(
        node_id,
        pending,
        peer,
        peer_sv,
    ).map_values(|transfer: TransferView| transfer.bundle.id));
}

/// The routing of a bundle that is forwarded asks every connected node in turn,
/// and has sent each of them what it lacked. It ends when all were served.
pub proof fn forwarding_runs_through(
    node_id: Id,
    start: Routed,
    pending: Seq<BundleView>,
    peers: Seq<PeerRecordView>,
    summaries: Seq<Seq<Id>>,
    written: Seq<Seq<bool>>,
)
    requires
        start.next == (RouteStateView::Forward { pending }),
        summaries.len() <= peers.len(),
        written.len() == summaries.len(),
    ensures
        route_after(start, pass_events(peers, summaries, written)) == pass_from(
            start.held,
            start.bundle,
            pending,
            peers,
            summaries.len(),
            pass_reach(pending, summaries, written, start.bundle.id),
        ),
        sent_after(node_id, start, pass_events(peers, summaries, written)) == pass_transfers(
            node_id,
            pending,
            peers,
            summaries,
        ),
    decreases summaries.len(),
{
    let events = pass_events(peers, summaries, written);
    let id = start.bundle.id;
    if summaries.len() == 0 {
        assert(events.drop_last() =~= Seq::<RouteEventView>::empty());
        reveal_with_fuel(route_after, 2);
        reveal_with_fuel(sent_after, 2);
        assert(sent_after(node_id, start, events) =~= Seq::<TransferView>::empty());
    } else {
        let init = summaries.drop_last();
        let init_written = written.drop_last();
        let before = pass_events(peers, init, init_written);
        let asked = before.push(RouteEventView::Summary(summaries.last()));
        forwarding_runs_through(node_id, start, pending, peers, init, init_written);
        pass_reach_grows(pending, summaries, written, id);
        assert(asked.drop_last() =~= before);
        assert(events.drop_last() =~= asked);
        let sent = sent_after(node_id, start, asked);
        assert(sent == pass_transfers(node_id, pending, peers, summaries));
        assert(sent_after(node_id, start, events) =~= sent);
    }
}

/// One more node is one more that the bundle may have reached.
proof fn reached_some_grows(
    pending: Seq<BundleView>,
    summaries: Seq<Seq<Id>>,
    written: Seq<Seq<bool>>,
    id: Id,
)
    requires
        summaries.len() > 0,
        written.len() == summaries.len(),
    ensures
        reached_some(pending, summaries, written, id) <==> reached_some(
            pending,
            summaries.drop_last(),
            written.drop_last(),
            id,
        ) || some_written(ids_of(missing_on_peer(pending, summaries.last())), written.last(), id),
{
    let init = summaries.drop_last();
    let init_written = written.drop_last();
    if reached_some(pending, summaries, written, id) {
        let k = choose|k: int|
            0 <= k < summaries.len() && #[trigger] some_written(
                ids_of(missing_on_peer(pending, summaries[k])),
                written[k],
                id,
            );
        if k < init.len() {
            assert(some_written(ids_of(missing_on_peer(pending, init[k])), init_written[k], id));
        }
    }
    if reached_some(pending, init, init_written, id) {
        let k = choose|k: int|
            0 <= k < init.len() && #[trigger] some_written(
                ids_of(missing_on_peer(pending, init[k])),
                init_written[k],
                id,
            );
        assert(some_written(ids_of(missing_on_peer(pending, summaries[k])), written[k], id));
    }
    if some_written(ids_of(missing_on_peer(pending, summaries.last())), written.last(), id) {
        let k = summaries.len() - 1;
        assert(some_written(ids_of(missing_on_peer(pending, summaries[k])), written[k], id));
    }
}

/// A node is offered a bundle with an identifier if and only if one is to be
/// forwarded and the node lacks it.
pub proof fn offered_if_lacking(pending: Seq<BundleView>, peer_sv: Seq<Id>, id: Id)
    ensures
        ids_of(missing_on_peer(pending, peer_sv)).contains(id) <==> holds_id(pending, id)
            && !peer_sv.contains(id),
{
    let missing = missing_on_peer(pending, peer_sv);
    let offered = ids_of(missing);
    if offered.contains(id) {
        let i = choose|i: int| 0 <= i < offered.len() && offered[i] == id;
        assert(missing.contains(missing[i]));
        anti_entropy_is_exact(pending, peer_sv, missing[i]);
        let j = choose|j: int| 0 <= j < pending.len() && pending[j] == missing[i];
        assert(pending[j].id == id);
    }
    if holds_id(pending, id) && !peer_sv.contains(id) {
        let j = choose|j: int| 0 <= j < pending.len() && (#[trigger] pending[j]).id == id;
        assert(pending.contains(pending[j]));
        anti_entropy_is_exact(pending, peer_sv, pending[j]);
        let i = choose|i: int| 0 <= i < missing.len() && missing[i] == pending[j];
        assert(offered[i] == id);
    }
}

/// How one more node moves a bundle on.
proof fn pass_reach_grows(
    pending: Seq<BundleView>,
    summaries: Seq<Seq<Id>>,
    written: Seq<Seq<bool>>,
    id: Id,
)
    requires
        summaries.len() > 0,
        written.len() == summaries.len(),
    ensures
        pass_reach(pending, summaries, written, id) == reach_next(
            pass_reach(pending, summaries.drop_last(), written.drop_last(), id),
            ids_of(missing_on_peer(pending, summaries.last())),
            written.last(),
            id,
        ),
{
    let init = summaries.drop_last();
    reached_some_grows(pending, summaries, written, id);
    offered_if_lacking(pending, summaries.last(), id);
    if lacked_by_some(summaries, id) {
        let k = choose|k: int| 0 <= k < summaries.len() && !(#[trigger] summaries[k]).contains(id);
        if k < init.len() {
            assert(!init[k].contains(id));
        }
    }
    if lacked_by_some(init, id) {
        let k = choose|k: int| 0 <= k < init.len() && !(#[trigger] init[k]).contains(id);
        assert(!summaries[k].contains(id));
    }
    assert(summaries.last() == summaries[summaries.len() - 1]);
}

/// How a bundle stands once it was forwarded to every connected node. It is left
/// pending if it was waiting to be forwarded, was written to nobody, and there was a
/// node that lacked it or no node at all. In every other case it is in transit. The
/// node holds it as it then stands.
pub proof fn pass_decides_the_status(
    node_id: Id,
    start: Routed,
    pending: Seq<BundleView>,
    peers: Seq<PeerRecordView>,
    summaries: Seq<Seq<Id>>,
    written: Seq<Seq<bool>>,
)
    requires
        start.next == (RouteStateView::Forward { pending }),
        summaries.len() == peers.len(),
        written.len() == peers.len(),
    ensures
        ({
            let id = start.bundle.id;
            let end = route_after(start, pass_events(peers, summaries, written));
            &&& end.next is Finished
            &&& end.bundle == start.bundle.with_status(
                if holds_id(pending, id) && !reached_some(pending, summaries, written, id) && (
                peers.len() == 0 || lacked_by_some(summaries, id)) {
                    MsgStatus::Pending
                } else {
                    MsgStatus::InTransit
                },
            )
            &&& end.held == updated(start.held, end.bundle)
        }),
{
    forwarding_runs_through(node_id, start, pending, peers, summaries, written);
}

/// A bundle that every connected node holds already is in transit.
pub proof fn held_by_all_is_in_transit(
    node_id: Id,
    start: Routed,
    pending: Seq<BundleView>,
    peers: Seq<PeerRecordView>,
    summaries: Seq<Seq<Id>>,
    written: Seq<Seq<bool>>,
)
    requires
        start.next == (RouteStateView::Forward { pending }),
        summaries.len() == peers.len(),
        written.len() == peers.len(),
        peers.len() > 0,
        forall|k: int|
            0 <= k < summaries.len() ==> (#[trigger] summaries[k]).contains(start.bundle.id),
    ensures
        route_after(start, pass_events(peers, summaries, written)).bundle
            == start.bundle.with_status(MsgStatus::InTransit),
{
    pass_decides_the_status(node_id, start, pending, peers, summaries, written);
}

/// A bundle that a node holds as in transit stays so when a copy of it comes in and
/// is forwarded, whatever nodes there are and whatever comes of sending.
pub proof fn in_transit_does_not_step_back(
    node_id: Id,
    held: Seq<BundleView>,
    bundle: BundleView,
    now: Timestamp,
    peers: Seq<PeerRecordView>,
    summaries: Seq<Seq<Id>>,
    written: Seq<Seq<bool>>,
)
    requires
        ids_distinct(held),
        lookup(held, bundle.id) matches Some(copy) && copy.shipment_status == MsgStatus::InTransit,
        routed(node_id, held, bundle, now).next is Forward,
        summaries.len() == peers.len(),
        written.len() == peers.len(),
    ensures
        lookup(
            route_after(
                routed(node_id, held, bundle, now),
                pass_events(peers, summaries, written),
            ).held,
            bundle.id,
        ) == Some(bundle.with_status(MsgStatus::InTransit)),
{
    let start = routed(node_id, held, bundle, now);
    let pending = pending_bundles(held);
    lookup_fails(held, bundle.id);
    if holds_id(pending, bundle.id) {
        let i = choose|i: int| 0 <= i < pending.len() && (#[trigger] pending[i]).id == bundle.id;
        assert(pending.contains(pending[i]));
        filter_members(
            held,
            |each: BundleView| each.shipment_status == MsgStatus::Pending,
            pending[i],
        );
        let j = choose|j: int| 0 <= j < held.len() && held[j] == pending[i];
        lookup_finds(held, j);
    }
    pass_decides_the_status(node_id, start, pending, peers, summaries, written);
    updated_is_found(held, bundle.with_status(MsgStatus::InTransit), bundle.id);
}

/// The routing of an acknowledgement that is passed on ends with the answer of the
/// registry, and sends the acknowledgement once to every connected node.
pub proof fn ack_reaches_every_peer(
    node_id: Id,
    start: Routed,
    peers: Seq<PeerRecordView>,
    k: int,
)
    requires
        start.next is FloodAck,
        0 <= k < peers.len(),
    ensures
        route_next(start, RouteEventView::Registry(peers)).next is Finished,
        route_transfers(node_id, start, RouteEventView::Registry(peers)).len() == peers.len(),
        route_transfers(node_id, start, RouteEventView::Registry(peers))[k] == (TransferView {
            source_id: peers[k].node.id,
            bundle: start.bundle,
            destination: peer_endpoint(peers[k]),
        }),
{
}

/// A bundle that is not left pending is pending no longer once the pass has ended,
/// so that no later pass sends it again.
pub proof fn forwarded_is_not_pending(
    held: Seq<BundleView>,
    bundle: BundleView,
    pending: Seq<BundleView>,
    peers: Seq<PeerRecordView>,
    reach: Reach,
    other: BundleView,
)
    requires
        !left_pending(pending, peers, reach, bundle.id),
        other.id == bundle.id,
    ensures
        !pending_bundles(
            pass_from(held, bundle, pending, peers, peers.len(), reach).held,
        ).contains(other),
{
    let sent = bundle.with_status(MsgStatus::InTransit);
    let after = updated(held, sent);
    filter_members(
        after,
        |each: BundleView| each.shipment_status == MsgStatus::Pending,
        other,
    );
    if after.contains(other) {
        let i = choose|i: int| 0 <= i < after.len() && after[i] == other;
        assert(held[i].id == bundle.id);
    }
}

/// Where no transfer is written, because no node could be connected to or for any
/// other reason, a bundle reaches nobody; nor does it where there is no node.
pub proof fn failed_transfers_reach_nobody(
    pending: Seq<BundleView>,
    summaries: Seq<Seq<Id>>,
    written: Seq<Seq<bool>>,
    id: Id,
)
    requires
        written.len() == summaries.len(),
        forall|k: int, i: int|
            0 <= k < written.len() && 0 <= i < written[k].len() ==> !(#[trigger] written[k][i]),
    ensures
        !reached_some(pending, summaries, written, id),
{
    if reached_some(pending, summaries, written, id) {
        let k = choose|k: int|
            0 <= k < summaries.len() && #[trigger] some_written(
                ids_of(missing_on_peer(pending, summaries[k])),
                written[k],
                id,
            );
        let offered = ids_of(missing_on_peer(pending, summaries[k]));
        let i = choose|i: int|
            0 <= i < offered.len() && i < written[k].len() && #[trigger] offered[i] == id
                && written[k][i];
        assert(!written[k][i]);
    }
}

/// A bundle that waits to be forwarded and is written to nobody, though a node
/// lacked it or because there is no node, is kept: once the pass has ended, it is
/// held as pending, and no other bundle was touched.
pub proof fn unsent_stays_pending(
    node_id: Id,
    held: Seq<BundleView>,
    bundle: BundleView,
    now: Timestamp,
    peers: Seq<PeerRecordView>,
    summaries: Seq<Seq<Id>>,
    written: Seq<Seq<bool>>,
    other: Id,
)
    requires
        ids_distinct(held),
        other != bundle.id,
        summaries.len() == peers.len(),
        written.len() == peers.len(),
        routed(node_id, held, bundle, now).next matches RouteStateView::Forward { pending }
            && holds_id(pending, bundle.id) && !reached_some(
            pending,
            summaries,
            written,
            bundle.id,
        ),
        peers.len() == 0 || lacked_by_some(summaries, bundle.id),
    ensures
        ({
            let end = route_after(
                routed(node_id, held, bundle, now),
                pass_events(peers, summaries, written),
            );
            let kept = bundle.with_status(MsgStatus::Pending);
            &&& end.next is Finished
            &&& end.bundle == kept
            &&& lookup(end.held, bundle.id) == Some(kept)
            &&& pending_bundles(end.held).contains(kept)
            &&& ids_distinct(end.held)
            &&& lookup(end.held, other) == lookup(held, other)
        }),
{
    let start = routed(node_id, held, bundle, now);
    let stored = saved(held, bundle);
    let kept = bundle.with_status(MsgStatus::Pending);
    let after = updated(stored, kept);
    pass_decides_the_status(
        node_id,
        start,
        pending_bundles(stored),
        peers,
        summaries,
        written,
    );
    saved_is_held(held, bundle);
    saved_is_found(held, bundle, other);
    updated_is_found(stored, kept, other);
    updated_is_found(stored, kept, bundle.id);
    let i = choose|i: int| 0 <= i < stored.len() && (#[trigger] stored[i]).id == bundle.id;
    assert(after[i] == kept);
    filter_members(
        after,
        |each: BundleView| each.shipment_status == MsgStatus::Pending,
        kept,
    );
}

/// A bundle that is held as pending is among those that go out with the next
/// bundle that is forwarded.
pub proof fn pending_is_offered_again(
    node_id: Id,
    held: Seq<BundleView>,
    kept: BundleView,
    next: BundleView,
    now: Timestamp,
)
    requires
        pending_bundles(held).contains(kept),
        !(next.kind is Ack),
        next.destination.id != node_id,
        !next.expired_at(now),
    ensures
        routed(node_id, held, next, now).next matches RouteStateView::Forward { pending }
            && pending.contains(kept),
{
    let is_pending = |each: BundleView| each.shipment_status == MsgStatus::Pending;
    let stored = saved(held, next);
    filter_members(held, is_pending, kept);
    let i = choose|i: int| 0 <= i < held.len() && held[i] == kept;
    assert(stored[i] == kept);
    filter_members(stored, is_pending, kept);
}

/// A bundle that is new to a node and is to be forwarded is among the pending
/// bundles that go out, if it is pending.
pub proof fn new_bundle_is_forwarded(
    node_id: Id,
    held: Seq<BundleView>,
    bundle: BundleView,
    now: Timestamp,
)
    requires
        !holds_id(held, bundle.id),
        !(bundle.kind is Ack),
        bundle.destination.id != node_id,
        !bundle.expired_at(now),
        bundle.shipment_status == MsgStatus::Pending,
    ensures
        routed(node_id, held, bundle, now).next matches RouteStateView::Forward { pending }
            && pending.contains(bundle),
{
    let stored = saved(held, bundle);
    assert(stored[held.len() as int] == bundle);
    filter_members(
        stored,
        |each: BundleView| each.shipment_status == MsgStatus::Pending,
        bundle,
    );
}

/// What goes out with a bundle that is forwarded are exactly the bundles that the
/// node then holds as pending: none that is delivered, expired or in transit.
pub proof fn only_pending_goes_out(
    node_id: Id,
    held: Seq<BundleView>,
    bundle: BundleView,
    now: Timestamp,
    each: BundleView,
)
    ensures
        routed(node_id, held, bundle, now).next matches RouteStateView::Forward { pending } ==> (
        pending.contains(each) <==> routed(node_id, held, bundle, now).held.contains(each)
            && each.shipment_status == MsgStatus::Pending),
{
    filter_members(
        saved(held, bundle),
        |other: BundleView| other.shipment_status == MsgStatus::Pending,
        each,
    );
}

/// The pending bundles go out in the order in which they are held, each once.
pub proof fn pending_keeps_order(
    node_id: Id,
    held: Seq<BundleView>,
    bundle: BundleView,
    now: Timestamp,
    pending: Seq<BundleView>,
    i: int,
    j: int,
)
    requires
        routed(node_id, held, bundle, now).next == (RouteStateView::Forward { pending }),
        0 <= i < j < pending.len(),
    ensures
        ({
            let after = routed(node_id, held, bundle, now).held;
            exists|a: int, b: int|
                0 <= a < b < after.len() && #[trigger] after[a] == pending[i] && #[trigger] after[b]
                    == pending[j]
        }),
{
    let stored = saved(held, bundle);
    assert(routed(node_id, held, bundle, now).held == stored);
    assert(pending == pending_bundles(stored));
    filter_keeps_order(
        stored,
        |other: BundleView| other.shipment_status == MsgStatus::Pending,
        i,
        j,
    );
}

/// What a peer is sent comes in the order in which it waits, each bundle once.
pub proof fn missing_keeps_order(local: Seq<BundleView>, peer_sv: Seq<Id>, i: int, j: int)
    requires
        0 <= i < j < missing_on_peer(local, peer_sv).len(),
    ensures
        exists|a: int, b: int|
            0 <= a < b < local.len() && #[trigger] local[a] == missing_on_peer(local, peer_sv)[i]
                && #[trigger] local[b] == missing_on_peer(local, peer_sv)[j],
{
    filter_keeps_order(local, |other: BundleView| !peer_sv.contains(other.id), i, j);
}

/// All that a forwarding pass sends, told from what the node holds and what the
/// peers say: a transfer goes out if and only if it carries a bundle that the node
/// holds as pending to the endpoint of a connected node that does not name it, in
/// the name of the sending node.
pub proof fn forwarding_sends_exactly(
    node_id: Id,
    held: Seq<BundleView>,
    bundle: BundleView,
    now: Timestamp,
    peers: Seq<PeerRecordView>,
    summaries: Seq<Seq<Id>>,
    written: Seq<Seq<bool>>,
    transfer: TransferView,
)
    requires
        routed(node_id, held, bundle, now).next is Forward,
        summaries.len() == peers.len(),
        written.len() == peers.len(),
    ensures
        sent_after(
            node_id,
            routed(node_id, held, bundle, now),
            pass_events(peers, summaries, written),
        ).contains(transfer) <==> {
            &&& transfer.source_id == node_id
            &&& transfer.bundle.shipment_status == MsgStatus::Pending
            &&& routed(node_id, held, bundle, now).held.contains(transfer.bundle)
            &&& exists|k: int|
                0 <= k < peers.len() && !summaries[k].contains(transfer.bundle.id)
                    && transfer.destination == endpoint_text(
                    (#[trigger] peers[k]).node.address,
                    peers[k].node.port,
                )
        },
{
    let start = routed(node_id, held, bundle, now);
    let pending = pending_bundles(saved(held, bundle));
    forwarding_runs_through(node_id, start, pending, peers, summaries, written);
    pass_serves_every_peer(node_id, pending, peers, summaries, transfer);
    only_pending_goes_out(node_id, held, bundle, now, transfer.bundle);
    assert forall|k: int| 0 <= k < peers.len() implies (#[trigger] transfers_to_peer(
        node_id,
        pending,
        peers[k],
        summaries[k],
    )).contains(transfer) <==> {
        &&& transfer.source_id == node_id
        &&& transfer.destination == peer_endpoint(peers[k])
        &&& pending.contains(transfer.bundle)
        &&& !summaries[k].contains(transfer.bundle.id)
    } by {
        peer_gets_what_it_lacks(node_id, pending, peers[k], summaries[k], transfer);
    }
    if pass_transfers(node_id, pending, peers, summaries).contains(transfer) {
        let k = choose|k: int|
            0 <= k < summaries.len() && (#[trigger] transfers_to_peer(
                node_id,
                pending,
                peers[k],
                summaries[k],
            )).contains(transfer);
        assert(transfer.destination == endpoint_text(peers[k].node.address, peers[k].node.port));
    }
    if pending.contains(transfer.bundle) && transfer.source_id == node_id && exists|k: int|
        0 <= k < peers.len() && !summaries[k].contains(transfer.bundle.id) && transfer.destination
            == endpoint_text((#[trigger] peers[k]).node.address, peers[k].node.port) {
        let k = choose|k: int|
            0 <= k < peers.len() && !summaries[k].contains(transfer.bundle.id)
                && transfer.destination == endpoint_text(
                (#[trigger] peers[k]).node.address,
                peers[k].node.port,
            );
        assert(transfers_to_peer(node_id, pending, peers[k], summaries[k]).contains(transfer));
    }
}

/// While a pass lasts, the nodes are served in the order in which the registry named
/// them, and neither what is held nor the bundle changes.
pub proof fn pass_goes_from_node_to_node(
    node_id: Id,
    start: Routed,
    waiting: Seq<BundleView>,
    named: Seq<PeerRecordView>,
    summaries: Seq<Seq<Id>>,
    written: Seq<Seq<bool>>,
)
    requires
        start.next == (RouteStateView::Forward { pending: waiting }),
        summaries.len() < named.len(),
        written.len() == summaries.len(),
    ensures
        ({
            let at = route_after(start, pass_events(named, summaries, written));
            &&& at.held == start.held
            &&& at.bundle == start.bundle
            &&& at.next matches RouteStateView::Pass { pending, peers, served, .. }
            &&& pending == waiting
            &&& peers == named
            &&& served == summaries.len()
        }),
{
    forwarding_runs_through(node_id, start, waiting, named, summaries, written);
}

/// A bundle that was written to a node is in transit once the pass has ended.
pub proof fn written_is_in_transit(
    node_id: Id,
    start: Routed,
    pending: Seq<BundleView>,
    peers: Seq<PeerRecordView>,
    summaries: Seq<Seq<Id>>,
    written: Seq<Seq<bool>>,
    k: int,
    i: int,
)
    requires
        start.next == (RouteStateView::Forward { pending }),
        summaries.len() == peers.len(),
        written.len() == peers.len(),
        0 <= k < peers.len(),
        0 <= i < transfers_to_peer(node_id, pending, peers[k], summaries[k]).len(),
        i < written[k].len(),
        transfers_to_peer(node_id, pending, peers[k], summaries[k])[i].bundle.id == start.bundle.id,
        written[k][i],
    ensures
        route_after(start, pass_events(peers, summaries, written)).bundle.shipment_status
            == MsgStatus::InTransit,
        route_after(start, pass_events(peers, summaries, written)).next is Finished,
{
    let offered = ids_of(missing_on_peer(pending, summaries[k]));
    assert(offered[i] == start.bundle.id);
    assert(some_written(offered, written[k], start.bundle.id));
    pass_decides_the_status(node_id, start, pending, peers, summaries, written);
}

/// A pending bundle of which no transfer was written, though a peer lacked it or
/// because there was no peer, is pending once the pass has ended. The transfers are
/// those that went out.
pub proof fn unwritten_is_pending(
    node_id: Id,
    start: Routed,
    pending: Seq<BundleView>,
    peers: Seq<PeerRecordView>,
    summaries: Seq<Seq<Id>>,
    written: Seq<Seq<bool>>,
    waiting: BundleView,
    lacking: int,
)
    requires
        start.next == (RouteStateView::Forward { pending }),
        summaries.len() == peers.len(),
        written.len() == peers.len(),
        pending.contains(waiting),
        waiting.id == start.bundle.id,
        peers.len() == 0 || (0 <= lacking < peers.len() && !summaries[lacking].contains(
            start.bundle.id,
        )),
        forall|k: int, i: int|
            0 <= k < peers.len() && 0 <= i < written[k].len() && i < transfers_to_peer(
                node_id,
                pending,
                peers[k],
                summaries[k],
            ).len() && transfers_to_peer(node_id, pending, peers[k], summaries[k])[i].bundle.id
                == start.bundle.id ==> !(#[trigger] written[k][i]),
    ensures
        route_after(start, pass_events(peers, summaries, written)).bundle.shipment_status
            == MsgStatus::Pending,
        route_after(start, pass_events(peers, summaries, written)).next is Finished,
{
    let id = start.bundle.id;
    let w = choose|w: int| 0 <= w < pending.len() && pending[w] == waiting;
    assert(pending[w].id == id);
    if reached_some(pending, summaries, written, id) {
        let k = choose|k: int|
            0 <= k < summaries.len() && #[trigger] some_written(
                ids_of(missing_on_peer(pending, summaries[k])),
                written[k],
                id,
            );
        let offered = ids_of(missing_on_peer(pending, summaries[k]));
        let i = choose|i: int|
            0 <= i < offered.len() && i < written[k].len() && #[trigger] offered[i] == id
                && written[k][i];
        assert(transfers_to_peer(node_id, pending, peers[k], summaries[k])[i].bundle.id == id);
        assert(!written[k][i]);
    }
    if peers.len() > 0 {
        assert(!summaries[lacking].contains(id));
    }
    pass_decides_the_status(node_id, start, pending, peers, summaries, written);
}

/// What becomes of the held copy at the end of a pass: the node holds the bundle as
/// it then stands, and every other bundle as before.
pub proof fn pass_end_is_recorded(
    node_id: Id,
    start: Routed,
    pending: Seq<BundleView>,
    peers: Seq<PeerRecordView>,
    summaries: Seq<Seq<Id>>,
    written: Seq<Seq<bool>>,
    other: Id,
)
    requires
        start.next == (RouteStateView::Forward { pending }),
        summaries.len() == peers.len(),
        written.len() == peers.len(),
        ids_distinct(start.held),
        holds_id(start.held, start.bundle.id),
        other != start.bundle.id,
    ensures
        ({
            let end = route_after(start, pass_events(peers, summaries, written));
            &&& lookup(end.held, start.bundle.id) == Some(end.bundle)
            &&& lookup(end.held, other) == lookup(start.held, other)
        }),
{
    let end = route_after(start, pass_events(peers, summaries, written));
    pass_decides_the_status(node_id, start, pending, peers, summaries, written);
    updated_is_found(start.held, end.bundle, start.bundle.id);
    updated_is_found(start.held, end.bundle, other);
}

/// An answer that was not asked for changes nothing and sends nothing: only the
/// registry is heard while it is asked, only a node while one is asked, only word of
/// transfers while there are some, and nothing once the routing has ended.
pub proof fn unasked_changes_nothing(node_id: Id, at: Routed, event: RouteEventView)
    requires
        at.next is Finished || (at.next is FloodAck && !(event is Registry)) || (at.next is Forward
            && !(event is Registry)) || (at.next is Pass && !(event is Summary)) || (
        at.next is Sending && !(event is Sent)),
    ensures
        route_next(at, event) == at,
        route_transfers(node_id, at, event).len() == 0,
{
}

/// Nothing is sent when the registry names the nodes of a pass, nor when it is said
/// what was written.
pub proof fn only_summaries_are_answered_with_bundles(
    node_id: Id,
    at: Routed,
    event: RouteEventView,
)
    requires
        (at.next is Forward && event is Registry) || (at.next is Sending && event is Sent),
    ensures
        route_transfers(node_id, at, event).len() == 0,
{
}

/// The flooding of an acknowledgement changes nothing that is held, and not the
/// acknowledgement; each node gets it at its endpoint.
pub proof fn flooding_changes_nothing(
    node_id: Id,
    at: Routed,
    peers: Seq<PeerRecordView>,
    transfer: TransferView,
)
    requires
        at.next is FloodAck,
    ensures
        route_next(at, RouteEventView::Registry(peers)).held == at.held,
        route_next(at, RouteEventView::Registry(peers)).bundle == at.bundle,
        route_transfers(node_id, at, RouteEventView::Registry(peers)).contains(transfer) <==> {
            &&& transfer.bundle == at.bundle
            &&& exists|k: int|
                0 <= k < peers.len() && transfer.source_id == (#[trigger] peers[k]).node.id
                    && transfer.destination == endpoint_text(
                    peers[k].node.address,
                    peers[k].node.port,
                )
        },
{
    let sent = route_transfers(node_id, at, RouteEventView::Registry(peers));
    if sent.contains(transfer) {
        let k = choose|k: int| 0 <= k < sent.len() && sent[k] == transfer;
        assert(transfer.source_id == peers[k].node.id);
    }
    if transfer.bundle == at.bundle && exists|k: int|
        0 <= k < peers.len() && transfer.source_id == (#[trigger] peers[k]).node.id
            && transfer.destination == endpoint_text(peers[k].node.address, peers[k].node.port) {
        let k = choose|k: int|
            0 <= k < peers.len() && transfer.source_id == (#[trigger] peers[k]).node.id
                && transfer.destination == endpoint_text(
                peers[k].node.address,
                peers[k].node.port,
            );
        assert(sent[k] == transfer);
    }
}

/// An acknowledgement that is routed at any node but the one that made it clears the
/// bundle it names there, in whatever state that is held, and goes on to everybody.
/// It is delivered if the node is the one it is for, and unchanged elsewhere.
pub proof fn ack_clears_wherever_it_passes(
    node_id: Id,
    held: Seq<BundleView>,
    ack: BundleView,
    acknowledged: Id,
    now: Timestamp,
    i: int,
)
    requires
        ids_distinct(held),
        ack.kind == (BundleKindView::Ack { ack_bundle_id: acknowledged }),
        ack.source.id != node_id,
    ensures
        ({
            let after = routed(node_id, held, ack, now);
            &&& after.next is FloodAck
            &&& 0 <= i < after.held.len() ==> after.held[i].id != acknowledged
            &&& after.bundle == ack.with_status(
                if ack.destination.id == node_id {
                    MsgStatus::Delivered
                } else {
                    ack.shipment_status
                },
            )
        }),
{
    let stored = saved(held, ack);
    let after = routed(node_id, held, ack, now).held;
    saved_is_found(held, ack, acknowledged);
    incoming_ack_clears(node_id, stored, ack, acknowledged, i);
}

/// Whoever takes in an acknowledgement holds no bundle that it names any longer.
pub proof fn incoming_ack_clears(
    node_id: Id,
    held: Seq<BundleView>,
    ack: BundleView,
    acknowledged: Id,
    i: int,
)
    requires
        ids_distinct(held),
        ack.kind == (BundleKindView::Ack { ack_bundle_id: acknowledged }),
    ensures
        0 <= i < after_ack(held, ack, node_id).len() ==> after_ack(held, ack, node_id)[i].id
            != acknowledged,
{
    let after = after_ack(held, ack, node_id);
    deleted_is_gone(held, acknowledged, acknowledged);
    updated_is_found(deleted(held, acknowledged), received_ack(ack, node_id), acknowledged);
    lookup_fails(deleted(held, acknowledged), acknowledged);
    if 0 <= i < after.len() && after[i].id == acknowledged {
        assert(holds_id(after, acknowledged));
    }
}

/// An acknowledgement of another bundle is kept where it passes: as it came at a
/// relay, unless a copy is held already, and as delivered at the node that it is
/// for.
pub proof fn passing_ack_is_held(
    node_id: Id,
    held: Seq<BundleView>,
    ack: BundleView,
    acknowledged: Id,
    now: Timestamp,
)
    requires
        ids_distinct(held),
        ack.kind == (BundleKindView::Ack { ack_bundle_id: acknowledged }),
        ack.source.id != node_id,
        ack.id != acknowledged,
    ensures
        lookup(routed(node_id, held, ack, now).held, ack.id) == (if ack.destination.id == node_id {
            Some(ack.with_status(MsgStatus::Delivered))
        } else if holds_id(held, ack.id) {
            lookup(held, ack.id)
        } else {
            Some(ack)
        }),
{
    let stored = saved(held, ack);
    saved_is_held(held, ack);
    saved_is_found(held, ack, ack.id);
    deleted_is_gone(stored, acknowledged, ack.id);
    lookup_fails(deleted(stored, acknowledged), ack.id);
    lookup_fails(stored, ack.id);
    updated_is_found(deleted(stored, acknowledged), received_ack(ack, node_id), ack.id);
}

/// A bundle that is no acknowledgement takes none of what is held away.
pub proof fn only_acks_clear(node_id: Id, held: Seq<BundleView>, bundle: BundleView)
    requires
        !(bundle.kind is Ack),
    ensures
        after_ack(held, bundle, node_id) == held,
        received_ack(bundle, node_id) == bundle,
{
}

/// What becomes of every bundle that is routed, by its kind, its nodes and its age:
/// which of the outcomes it comes to, and in what state the bundle is then.
pub proof fn routing_decides(
    node_id: Id,
    held: Seq<BundleView>,
    bundle: BundleView,
    now: Timestamp,
)
    ensures
        ({
            let after = routed(node_id, held, bundle, now);
            let old = elapsed_seconds(now, bundle.timestamp) > bundle.ttl;
            let here = bundle.destination.id == node_id;
            &&& bundle.kind is Ack ==> (after.next is Finished <==> bundle.source.id == node_id)
            &&& bundle.kind is Ack ==> (after.next is FloodAck <==> bundle.source.id != node_id)
            &&& bundle.kind is Ack && bundle.source.id == node_id ==> after.bundle == bundle
            &&& !(bundle.kind is Ack) ==> (after.next is Finished <==> here || old)
            &&& !(bundle.kind is Ack) ==> (after.next is Forward <==> !here && !old)
            &&& !(bundle.kind is Ack) ==> after.bundle.shipment_status == (if here {
                MsgStatus::Delivered
            } else if old {
                MsgStatus::Expired
            } else {
                bundle.shipment_status
            })
            &&& after.bundle == bundle.with_status(after.bundle.shipment_status)
        }),
{
}

/// A bundle that is to be forwarded is held from then on: as it came if it is new,
/// and else as it was held.
pub proof fn forwarded_bundle_is_held(
    node_id: Id,
    held: Seq<BundleView>,
    bundle: BundleView,
    now: Timestamp,
)
    requires
        ids_distinct(held),
        routed(node_id, held, bundle, now).next is Forward,
    ensures
        lookup(routed(node_id, held, bundle, now).held, bundle.id) == (if holds_id(
            held,
            bundle.id,
        ) {
            lookup(held, bundle.id)
        } else {
            Some(bundle)
        }),
        routed(node_id, held, bundle, now).bundle == bundle,
{
    saved_is_found(held, bundle, bundle.id);
}

/// Another status is all that sets a bundle with another status apart.
pub proof fn status_is_all_that_changes(bundle: BundleView, status: MsgStatus)
    ensures
        bundle.with_status(status).shipment_status == status,
        bundle.with_status(status).id == bundle.id,
        bundle.with_status(status).source == bundle.source,
        bundle.with_status(status).destination == bundle.destination,
        bundle.with_status(status).timestamp == bundle.timestamp,
        bundle.with_status(status).ttl == bundle.ttl,
        bundle.with_status(status).kind == bundle.kind,
{
}

/// How a bundle that is received stands, by its age and its destination.
pub proof fn receipt_decides(node_id: Id, bundle: BundleView, now: Timestamp)
    ensures
        ({
            let after = received(node_id, bundle, now);
            let old = elapsed_seconds(now, bundle.timestamp) > bundle.ttl;
            &&& after.shipment_status == MsgStatus::Expired <==> old
            &&& after.shipment_status == MsgStatus::Delivered <==> !old && node_id
                == bundle.destination.id
            &&& after.shipment_status == MsgStatus::InTransit <==> !old && node_id
                != bundle.destination.id
            &&& after == bundle.with_status(after.shipment_status)
        }),
{
}

/// An acknowledgement goes from the receiver of the data to its sender, names the
/// data, lives as long, and is pending.
pub proof fn ack_goes_back(data: BundleView, id: Id, timestamp: Timestamp)
    ensures
        ({
            let ack = ack_of(data, id, timestamp);
            &&& ack.id == id
            &&& ack.timestamp == timestamp
            &&& ack.source == data.destination
            &&& ack.destination == data.source
            &&& ack.ttl == data.ttl
            &&& ack.kind == (BundleKindView::Ack { ack_bundle_id: data.id })
            &&& ack.shipment_status == MsgStatus::Pending
        }),
{
}

/// The acknowledgement of data that travels on its way back: it is passed on by
/// every relay, dropped by the node that made it and delivered at the sender of the
/// data.
pub proof fn ack_travels_home(
    relay: Id,
    held: Seq<BundleView>,
    data: BundleView,
    id: Id,
    made: Timestamp,
    now: Timestamp,
)
    requires
        data.source.id != data.destination.id,
    ensures
        ({
            let after = routed(relay, held, ack_of(data, id, made), now);
            &&& after.next is Finished <==> relay == data.destination.id
            &&& after.next is FloodAck <==> relay != data.destination.id
            &&& after.bundle.shipment_status == MsgStatus::Delivered <==> relay == data.source.id
        }),
{
}

/// A new bundle is made of what it was given, and pending.
pub proof fn new_bundle_is_what_was_given(
    id: Id,
    timestamp: Timestamp,
    source: NodeView,
    destination: NodeView,
    kind: BundleKindView,
    ttl: u64,
)
    ensures
        ({
            let bundle = fresh_bundle(id, timestamp, source, destination, kind, ttl);
            &&& bundle.id == id
            &&& bundle.timestamp == timestamp
            &&& bundle.source == source
            &&& bundle.destination == destination
            &&& bundle.kind == kind
            &&& bundle.ttl == ttl
            &&& bundle.shipment_status == MsgStatus::Pending
        }),
{
}

/// A node is made of what it was given.
pub proof fn node_is_what_was_given(
    name: Seq<char>,
    address: Seq<char>,
    port: u16,
    peers: Seq<Id>,
)
    ensures
        named_node(name, address, port, peers).name == name,
        named_node(name, address, port, peers).address == address,
        named_node(name, address, port, peers).port == port,
        named_node(name, address, port, peers).peers == peers,
{
}

/// What is believed of a peer or of the registry is what it said; from one that
/// could not be asked, or said something else, nothing is learnt.
pub proof fn answers_are_taken_as_said(
    ids: Vec<Id>,
    error: SummaryError,
    records: Vec<PeerRecord>,
    reason: String,
    k: int,
)
    ensures
        known_summary(Ok(ids)) == ids@,
        known_summary(Err(error)).len() == 0,
        (RouteEvent::Summary(Ok(ids)))@ == RouteEventView::Summary(ids@),
        known_peers(Some(ServerResponse::Peers(records))).len() == records@.len(),
        0 <= k < records@.len() ==> known_peers(Some(ServerResponse::Peers(records)))[k]
            == records@[k]@,
        known_peers(Some(ServerResponse::Accepted)).len() == 0,
        known_peers(Some(ServerResponse::Error(reason))).len() == 0,
        known_peers(None).len() == 0,
{
}

/// An identifier is held if and only if a bundle with it is held, and identifiers
/// are distinct if and only if no two places hold one.
pub proof fn held_means_among_the_held(held: Seq<BundleView>, id: Id)
    ensures
        holds_id(held, id) <==> exists|bundle: BundleView|
            #[trigger] held.contains(bundle) && bundle.id == id,
        ids_distinct(held) <==> forall|i: int, j: int|
            0 <= i < j < held.len() ==> (#[trigger] held[i]).id != (#[trigger] held[j]).id,
{
    if holds_id(held, id) {
        let i = choose|i: int| 0 <= i < held.len() && (#[trigger] held[i]).id == id;
        assert(held.contains(held[i]));
    }
    if exists|bundle: BundleView| #[trigger] held.contains(bundle) && bundle.id == id {
        let bundle = choose|bundle: BundleView| #[trigger] held.contains(bundle) && bundle.id == id;
        let i = choose|i: int| 0 <= i < held.len() && held[i] == bundle;
        assert(held[i].id == id);
    }
}

/// Storing keeps the order: what is saved or put comes last or changes no place, and
/// what is updated stays where it was.
pub proof fn storing_keeps_order(held: Seq<BundleView>, bundle: BundleView, i: int)
    requires
        0 <= i < held.len(),
    ensures
        saved(held, bundle).len() <= held.len() + 1,
        saved(held, bundle)[i] == held[i],
        updated(held, bundle).len() == held.len(),
        updated(held, bundle)[i].id == held[i].id,
        updated(held, bundle)[i] == held[i] || updated(held, bundle)[i] == bundle,
        put(held, bundle).len() == saved(held, bundle).len(),
        put(held, bundle)[i].id == held[i].id,
{
}

/// Deleting and dropping keep the order of what stays.
pub proof fn removing_keeps_order(
    held: Seq<BundleView>,
    id: Id,
    now: Timestamp,
    i: int,
    j: int,
)
    requires
        0 <= i < j,
    ensures
        j < deleted(held, id).len() ==> exists|a: int, b: int|
            0 <= a < b < held.len() && #[trigger] held[a] == deleted(held, id)[i]
                && #[trigger] held[b] == deleted(held, id)[j],
        j < without_overdue(held, now).len() ==> exists|a: int, b: int|
            0 <= a < b < held.len() && #[trigger] held[a] == without_overdue(held, now)[i]
                && #[trigger] held[b] == without_overdue(held, now)[j],
{
    if j < deleted(held, id).len() {
        filter_keeps_order(held, |other: BundleView| other.id != id, i, j);
    }
    if j < without_overdue(held, now).len() {
        filter_keeps_order(held, |other: BundleView| !overdue_at(other, now), i, j);
    }
}

/// What is dropped is exactly what is older, in whole seconds, than its time to
/// live.
pub proof fn dropping_goes_by_age(held: Seq<BundleView>, now: Timestamp, bundle: BundleView)
    ensures
        without_overdue(held, now).contains(bundle) <==> held.contains(bundle) && elapsed_seconds(
            now,
            bundle.timestamp,
        ) <= bundle.ttl,
{
    dropped_are_overdue(held, now, bundle);
}

/// A node that looks like another is like it in all but its engine.
pub proof fn node_view_is_complete(node: Node, other: Node)
    ensures
        node@ == other@ <==> node.id == other.id && node.name@ == other.name@ && node.address@
            == other.address@ && node.port == other.port && node.peers@ == other.peers@,
{
}

/// A bundle that looks like another is like it in all but the engines of its nodes.
pub proof fn bundle_view_is_complete(bundle: Bundle, other: Bundle)
    ensures
        bundle@ == other@ <==> bundle.id == other.id && bundle.source@ == other.source@
            && bundle.destination@ == other.destination@ && bundle.timestamp == other.timestamp
            && bundle.ttl == other.ttl && bundle.kind@ == other.kind@ && bundle.shipment_status
            == other.shipment_status,
{
}

/// A content that looks like another is of the same kind and holds the same.
pub proof fn kind_view_is_complete(kind: BundleKind, other: BundleKind)
    ensures
        kind@ == other@ <==> match (kind, other) {
            (BundleKind::Data { msg: left }, BundleKind::Data { msg: right }) => left@ == right@,
            (
                BundleKind::Ack { ack_bundle_id: left },
                BundleKind::Ack { ack_bundle_id: right },
            ) => left == right,
            (BundleKind::RequestSV { from: left }, BundleKind::RequestSV { from: right }) => left
                == right,
            (
                BundleKind::SummaryVector { ids: left },
                BundleKind::SummaryVector { ids: right },
            ) => left@ == right@,
            _ => false,
        },
{
}

/// What is detached carries no engine.
pub proof fn detached_means_without_engine(node: Node, bundle: Bundle)
    ensures
        node.is_detached() <==> node.routing_engine is None,
        bundle.is_detached() <==> bundle.source.routing_engine is None
            && bundle.destination.routing_engine is None,
{
}

/// What differs in status, in bundles or not at all is the same in everything else.
pub proof fn differences_are_what_they_say(
    bundle: Bundle,
    second: Bundle,
    manager: BundleManager,
    other: BundleManager,
    engine: RoutingEngine,
    before: RoutingEngine,
)
    ensures
        bundle.differs_in_status(&second) ==> bundle.id == second.id && bundle.source
            == second.source && bundle.destination == second.destination && bundle.timestamp
            == second.timestamp && bundle.ttl == second.ttl && bundle.kind == second.kind,
        manager.same_node(&other) ==> manager.node_id == other.node_id && manager.name
            == other.name,
        engine.differs_in_bundles(&before) ==> engine.node_id == before.node_id && engine.peers
            == before.peers && engine.server == before.server && engine.registry_addr
            == before.registry_addr && engine.bundle_manager.node_id
            == before.bundle_manager.node_id && engine.bundle_manager.name
            == before.bundle_manager.name,
{
}

/// A fresh engine is that of the node, knows its peers, and holds and lists nothing.
pub proof fn fresh_engine_is_empty(
    engine: RoutingEngine,
    node_id: Id,
    peers: Seq<Id>,
    name: Seq<char>,
)
    requires
        engine.is_fresh(node_id, peers, name),
    ensures
        engine.node_id == node_id,
        engine.peers@ == peers,
        engine.bundle_manager.node_id == node_id,
        engine.bundle_manager.name@ == name,
        engine.bundle_manager@.len() == 0,
        engine.server@.len() == 0,
        engine.server.wf(),
        engine.bundle_manager.storage.wf(),
{
}

/// The contents of lists are those of what is in them, in their order.
pub proof fn list_views_are_complete(bundles: Seq<Bundle>, transfers: Seq<Transfer>, i: int)
    ensures
        bundle_views(bundles).len() == bundles.len(),
        0 <= i < bundles.len() ==> bundle_views(bundles)[i] == bundles[i]@,
        transfer_views(transfers).len() == transfers.len(),
        0 <= i < transfers.len() ==> transfer_views(transfers)[i] == transfers[i]@,
{
}

/// What is seen of a routing is how far it is, and in what waits, whom the pass goes
/// to, how many were served and what was offered.
pub proof fn route_state_view_is_complete(state: RouteState)
    ensures
        match state {
            RouteState::Finished => state@ == RouteStateView::Finished,
            RouteState::FloodAck => state@ == RouteStateView::FloodAck,
            RouteState::Forward { pending } => state@ == (RouteStateView::Forward {
                pending: bundle_views(pending@),
            }),
            RouteState::Pass(pass) => state@ == (RouteStateView::Pass {
                pending: pass.pending(),
                peers: pass.peers(),
                served: pass.served(),
                reach: pass.reach(),
            }),
            RouteState::Sending { pass, offered } => state@ == (RouteStateView::Sending {
                pending: pass.pending(),
                peers: pass.peers(),
                served: pass.served(),
                reach: pass.reach(),
                offered: offered@,
            }),
        },
        state matches RouteState::Forward { pending } ==> (state.holds_no_engine() <==> forall|
            i: int,
        |
            0 <= i < pending@.len() ==> (#[trigger] pending@[i]).source.routing_engine is None
                && pending@[i].destination.routing_engine is None),
{
}

} // verus!
