//! What holds of the registry and of what passes between nodes as a whole.

use vstd::prelude::*;

use crate::ident::Id;
use crate::network::client::{
    after_tries, after_try, be_bytes, be_value, carried_next, counts_as_written, first_try, framed,
    answer_view, ids_of, peer_answer, peer_next, receive_next, registration_next, registry_text, send_next,
    summary_error_text, ConnectStep, PeerEvent, PeerState, PeerStateView, ReceiveEvent, ReceiveState,
    RegistrationStage, SendStage, SummaryError,
};
use crate::network::server::{
    all_disconnected, answer, answer_without_registry, connected_peers, disconnected, is_asked_for,
    lists_id, name_is_free, next_registry, next_session, nodes_distinct, record_views, registered,
    ClientAction, ClientEvent, ConnectionStatus, PeerRecord, PeerRecordView, Server, ServerRequest,
    ServerResponse, ServerResponseView,
};
use crate::routing::engine::{known_peers, missing_on_peer, RoutingEngine, Transfer};
use crate::routing::model::{Bundle, BundleKind, BundleKindView, BundleView, Node, NodeView};
use crate::sequences::{filter_keeps_order, filter_members, filter_none};

verus! {

/// A node that registers is listed once, as it is, and connected.
pub proof fn registered_is_listed(registry: Seq<PeerRecordView>, node: NodeView)
    requires
        nodes_distinct(registry),
    ensures
        nodes_distinct(registered(registry, node)),
        registered(registry, node).contains(
            PeerRecordView { node, status: ConnectionStatus::Connected },
        ),
        registered(registry, node).len() == registry.len() + (if lists_id(registry, node.id) {
            0int
        } else {
            1
        }),
{
    let after = registered(registry, node);
    let record = PeerRecordView { node, status: ConnectionStatus::Connected };
    if lists_id(registry, node.id) {
        let i = choose|i: int|
            0 <= i < registry.len() && (#[trigger] registry[i]).node.id == node.id;
        assert(after[i] == record);
        assert(forall|k: int|
            0 <= k < registry.len() ==> (#[trigger] after[k]).node.id == registry[k].node.id);
    } else {
        assert(after[registry.len() as int] == record);
        assert forall|i: int, j: int|
            0 <= i < after.len() && 0 <= j < after.len() && (#[trigger] after[i]).node.id == (
            #[trigger] after[j]).node.id implies i == j by {
            if i < registry.len() && j == registry.len() {
                assert(registry[i].node.id == node.id);
            }
            if j < registry.len() && i == registry.len() {
                assert(registry[j].node.id == node.id);
            }
        }
    }
}

/// A node that registers again is not listed twice: registering twice is
/// registering once.
pub proof fn registering_again_changes_nothing(registry: Seq<PeerRecordView>, node: NodeView)
    requires
        nodes_distinct(registry),
    ensures
        registered(registered(registry, node), node) == registered(registry, node),
{
    let once = registered(registry, node);
    let record = PeerRecordView { node, status: ConnectionStatus::Connected };
    registered_is_listed(registry, node);
    let i = choose|i: int| 0 <= i < once.len() && once[i] == record;
    assert(once[i].node.id == node.id);
    assert(lists_id(once, node.id));
    assert forall|k: int| 0 <= k < once.len() implies #[trigger] registered(once, node)[k] == once[k] by {
        if once[k].node.id == node.id {
            assert(once[i].node.id == once[k].node.id);
        }
    }
    assert(registered(once, node) =~= once);
}

/// A node that registers changes the record of no other node.
pub proof fn registering_leaves_others(
    registry: Seq<PeerRecordView>,
    node: NodeView,
    record: PeerRecordView,
)
    requires
        record.node.id != node.id,
    ensures
        registered(registry, node).contains(record) <==> registry.contains(record),
{
    let after = registered(registry, node);
    if registry.contains(record) {
        let i = choose|i: int| 0 <= i < registry.len() && registry[i] == record;
        assert(after[i] == record);
    }
    if after.contains(record) {
        let i = choose|i: int| 0 <= i < after.len() && after[i] == record;
        assert(registry[i] == record);
    }
}

/// The registry answers a question with exactly the records of connected nodes
/// that are named, or with those of all connected nodes if none is named.
pub proof fn answer_is_exact(
    registry: Seq<PeerRecordView>,
    requested: Seq<Id>,
    record: PeerRecordView,
)
    ensures
        connected_peers(registry, requested).contains(record) <==> {
            &&& registry.contains(record)
            &&& record.status == ConnectionStatus::Connected
            &&& requested.len() == 0 || requested.contains(record.node.id)
        },
{
    filter_members(registry, |other: PeerRecordView| is_asked_for(other, requested), record);
}

/// A node that has registered is found by whoever asks for all nodes or for it.
pub proof fn registered_is_found(
    registry: Seq<PeerRecordView>,
    node: NodeView,
    requested: Seq<Id>,
)
    requires
        nodes_distinct(registry),
        requested.len() == 0 || requested.contains(node.id),
    ensures
        connected_peers(registered(registry, node), requested).contains(
            PeerRecordView { node, status: ConnectionStatus::Connected },
        ),
{
    registered_is_listed(registry, node);
    answer_is_exact(
        registered(registry, node),
        requested,
        PeerRecordView { node, status: ConnectionStatus::Connected },
    );
}

/// A node whose connection was lost is found by nobody, stays listed, and leaves
/// every other record as it was.
pub proof fn disconnected_is_not_found(
    registry: Seq<PeerRecordView>,
    id: Id,
    requested: Seq<Id>,
    record: PeerRecordView,
)
    ensures
        record.node.id == id ==> !connected_peers(
            disconnected(registry, id),
            requested,
        ).contains(record),
        lists_id(disconnected(registry, id), id) <==> lists_id(registry, id),
        record.node.id != id ==> (disconnected(registry, id).contains(record)
            <==> registry.contains(record)),
{
    let after = disconnected(registry, id);
    answer_is_exact(after, requested, record);
    assert(forall|k: int|
        0 <= k < registry.len() ==> (#[trigger] after[k]).node.id == registry[k].node.id);
    if after.contains(record) {
        let i = choose|i: int| 0 <= i < after.len() && after[i] == record;
        assert(record.node.id != id ==> registry[i] == record);
    }
    if registry.contains(record) && record.node.id != id {
        let i = choose|i: int| 0 <= i < registry.len() && registry[i] == record;
        assert(after[i] == record);
    }
    if lists_id(registry, id) {
        let i = choose|i: int| 0 <= i < registry.len() && (#[trigger] registry[i]).node.id == id;
        assert(after[i].node.id == id);
    }
    if lists_id(after, id) {
        let i = choose|i: int| 0 <= i < after.len() && (#[trigger] after[i]).node.id == id;
        assert(registry[i].node.id == id);
    }
}

/// The engine of a new node asks the registry at which a node registers where none
/// is named.
pub proof fn new_engine_asks_the_registry(
    engine: RoutingEngine,
    node_id: Id,
    peers: Seq<Id>,
    name: Seq<char>,
)
    requires
        engine.is_fresh(node_id, peers, name),
    ensures
        engine.registry_addr@ == registry_text(None),
{
}

/// A node that is connected stays so, whatever happens on any connection, until
/// the one on which it registered ends or it registers anew.
pub proof fn connected_stays_connected(
    registry: Seq<PeerRecordView>,
    session: Option<Id>,
    event: ClientEvent,
    record: PeerRecordView,
)
    requires
        registry.contains(record),
        event is Closed ==> session != Some(record.node.id),
        event matches ClientEvent::Request(ServerRequest::Register(node)) ==> node.id
            != record.node.id,
    ensures
        next_registry(registry, session, event).contains(record),
{
    match event {
        ClientEvent::Closed => {
            if let Some(id) = session {
                disconnected_is_not_found(registry, id, Seq::empty(), record);
            }
        },
        ClientEvent::Request(ServerRequest::Register(node)) => {
            registering_leaves_others(registry, node@, record);
        },
        _ => {},
    }
}

/// An engine that asks the registry learns of every node that is connected there,
/// and of no other: what it takes the answer to its question to say are the
/// records of exactly these.
pub proof fn engine_learns_who_is_connected(
    registry: Seq<PeerRecordView>,
    question: ServerRequest,
    reply: ServerResponse,
    record: PeerRecordView,
)
    requires
        question matches ServerRequest::GetConnectedPeers(ids) && ids@.len() == 0,
        answer(registry, ClientEvent::Request(question)) == Some(reply@),
    ensures
        known_peers(Some(reply)).contains(record) <==> registry.contains(record)
            && record.status == ConnectionStatus::Connected,
{
    if let ServerRequest::GetConnectedPeers(ids) = question {
        answer_is_exact(registry, ids@, record);
    }
}

/// After a shutdown no node is found.
pub proof fn shutdown_disconnects_all(registry: Seq<PeerRecordView>, requested: Seq<Id>)
    ensures
        connected_peers(all_disconnected(registry), requested) == Seq::<PeerRecordView>::empty(),
        all_disconnected(registry).len() == registry.len(),
{
    filter_none(
        all_disconnected(registry),
        |other: PeerRecordView| is_asked_for(other, requested),
    );
}

/// A client that registers and goes away ends as listed and disconnected, whoever
/// else came and went before.
pub proof fn session_ends_disconnected(
    registry: Seq<PeerRecordView>,
    session: Option<Id>,
    node: Node,
    requested: Seq<Id>,
    record: PeerRecordView,
)
    requires
        nodes_distinct(registry),
        record.node.id == node.id,
    ensures
        ({
            let joined = next_registry(
                registry,
                session,
                ClientEvent::Request(ServerRequest::Register(node)),
            );
            let left = next_registry(joined, Some(node.id), ClientEvent::Closed);
            &&& lists_id(left, node.id)
            &&& !connected_peers(left, requested).contains(record)
        }),
{
    let joined = registered(registry, node@);
    registered_is_listed(registry, node@);
    let i = choose|i: int|
        0 <= i < joined.len() && joined[i] == (PeerRecordView {
            node: node@,
            status: ConnectionStatus::Connected,
        });
    assert(joined[i].node.id == node.id);
    disconnected_is_not_found(joined, node.id, requested, record);
}

/// A length that fits in four bytes is read back from the header it is written to.
pub proof fn header_reads_back(len: int)
    requires
        0 <= len < 0x1_0000_0000,
    ensures
        be_value(be_bytes(len)) == len,
{
}

/// What is read off a connection, frame by frame, is what was written: the header
/// of a frame announces the payload that follows it, and the next frame starts
/// where the payload ends. This holds of payloads below two to the 32nd bytes.
pub proof fn frame_reads_back(payload: Seq<u8>, rest: Seq<u8>)
    requires
        payload.len() < 0x1_0000_0000,
    ensures
        ({
            let stream = framed(payload) + rest;
            let len = be_value(stream.take(4));
            &&& len == payload.len()
            &&& stream.subrange(4, 4 + len) == payload
            &&& stream.skip(4 + len) == rest
        }),
{
    let stream = framed(payload) + rest;
    header_reads_back(payload.len() as int);
    assert(stream.take(4) =~= be_bytes(payload.len() as int));
    assert(stream.subrange(4, 4 + payload.len() as int) =~= payload);
    assert(stream.skip(4 + payload.len() as int) =~= rest);
}

/// While every try fails, the next one comes, up to the last; then the node gives
/// up. It never tries more often than it may.
pub proof fn tries_are_bounded(max_retries: u32, delay_secs: u64, outcomes: Seq<bool>)
    requires
        forall|i: int| 0 <= i < outcomes.len() ==> !(#[trigger] outcomes[i]),
    ensures
        outcomes.len() < max_retries ==> (after_tries(max_retries, delay_secs, outcomes)
            matches ConnectStep::Try { attempt, .. } && attempt == outcomes.len() + 1),
        outcomes.len() >= max_retries ==> after_tries(max_retries, delay_secs, outcomes)
            == ConnectStep::Exhausted,
    decreases outcomes.len(),
{
    if outcomes.len() > 0 {
        assert forall|i: int| 0 <= i < outcomes.drop_last().len() implies !(
        #[trigger] outcomes.drop_last()[i]) by {
            assert(!outcomes[i]);
        }
        tries_are_bounded(max_retries, delay_secs, outcomes.drop_last());
        assert(!outcomes[outcomes.len() - 1]);
    }
}

/// The first try that succeeds is used, and nothing more is tried.
pub proof fn first_success_is_used(
    max_retries: u32,
    delay_secs: u64,
    outcomes: Seq<bool>,
    first: int,
)
    requires
        0 <= first < outcomes.len(),
        first < max_retries,
        outcomes[first],
        forall|i: int| 0 <= i < first ==> !(#[trigger] outcomes[i]),
    ensures
        after_tries(max_retries, delay_secs, outcomes) == ConnectStep::Connected,
    decreases outcomes.len(),
{
    if first == outcomes.len() - 1 {
        tries_are_bounded(max_retries, delay_secs, outcomes.drop_last());
    } else {
        first_success_is_used(max_retries, delay_secs, outcomes.drop_last(), first);
    }
}

/// A registration succeeds if and only if the connection, the encoding and the
/// sending do; what the registry replies does not matter.
pub proof fn registration_needs_three_steps(
    connected: bool,
    encoded: bool,
    sent: bool,
    replied: bool,
)
    ensures
        ({
            let first = registration_next(RegistrationStage::Connecting, connected);
            let second = registration_next(first, encoded);
            let third = registration_next(second, sent);
            let last = registration_next(third, replied);
            &&& last == RegistrationStage::Registered <==> connected && encoded && sent
            &&& last == RegistrationStage::Failed <==> !(connected && encoded && sent)
        }),
{
}

/// The sending of a bundle ends acknowledged if and only if every step succeeds.
/// The bundle counts as written if and only if all but the last do.
pub proof fn sending_needs_four_steps(
    encoded: bool,
    connected: bool,
    written: bool,
    acknowledged: bool,
)
    ensures
        ({
            let first = send_next(SendStage::Encoding, encoded);
            let second = send_next(first, connected);
            let third = send_next(second, written);
            let last = send_next(third, acknowledged);
            &&& last == SendStage::Acknowledged <==> encoded && connected && written
                && acknowledged
            &&& last == SendStage::Aborted <==> !(encoded && connected && written)
            &&& counts_as_written(last) <==> encoded && connected && written
        }),
{
}

/// A node that asks a peer learns what the peer holds, so that anti-entropy sends
/// the peer nothing that it holds, and everything else.
pub proof fn exchange_tells_what_is_held(
    local: Seq<BundleView>,
    held_by_peer: Seq<BundleView>,
    asker: Id,
    bundle: BundleView,
)
    ensures
        peer_answer(held_by_peer, BundleKindView::RequestSV { from: asker }) == Some(
            BundleKindView::SummaryVector { ids: ids_of(held_by_peer) },
        ),
        missing_on_peer(local, ids_of(held_by_peer)).contains(bundle) <==> local.contains(bundle)
            && !crate::routing::storage::holds_id(held_by_peer, bundle.id),
{
    let ids = ids_of(held_by_peer);
    filter_members(local, |other: BundleView| !ids.contains(other.id), bundle);
    if ids.contains(bundle.id) {
        let i = choose|i: int| 0 <= i < ids.len() && ids[i] == bundle.id;
        assert(held_by_peer[i].id == bundle.id);
    }
    if crate::routing::storage::holds_id(held_by_peer, bundle.id) {
        let i = choose|i: int|
            0 <= i < held_by_peer.len() && (#[trigger] held_by_peer[i]).id == bundle.id;
        assert(ids[i] == bundle.id);
    }
}

/// A bundle from a peer is routed only after its receipt was acknowledged: the one
/// state before is that in which the acknowledgement has been written.
pub proof fn routed_only_after_ack(
    held: Seq<BundleView>,
    before: PeerStateView,
    event: PeerEvent,
    bundle: BundleView,
)
    ensures
        peer_next(held, before, event) == (PeerStateView::Route { bundle }) ==> before == (
        PeerStateView::Route { bundle }) || before == (PeerStateView::Prepare { bundle }),
        peer_next(held, before, event) == (PeerStateView::Prepare { bundle }) ==> before == (
        PeerStateView::Prepare { bundle }) || (before == (PeerStateView::Acknowledge { bundle })
            && event == (PeerEvent::AckWritten { succeeded: true })),
{
}

/// A frame that cannot be decoded is skipped: the conversation goes on with the
/// next one.
pub proof fn unknown_frame_is_skipped(held: Seq<BundleView>, len: int)
    ensures
        peer_next(
            held,
            PeerStateView::Payload { len },
            PeerEvent::Payload { control: None, bundle: None },
        ) == PeerStateView::Header,
{
}

/// A closed conversation stays closed.
pub proof fn closed_stays_closed(held: Seq<BundleView>, event: PeerEvent)
    ensures
        peer_next(held, PeerStateView::Closed, event) == PeerStateView::Closed,
{
}

/// A bundle that a peer sends, of whatever kind, is acknowledged and then routed: a
/// payload that is no message between peers leads to the acknowledgement of that
/// very bundle; if that is written and what it takes to route is set up, the bundle
/// is routed, and then the next frame is read.
pub proof fn every_bundle_is_acknowledged_and_routed(
    held: Seq<BundleView>,
    len: int,
    bundle: Bundle,
)
    ensures
        ({
            let came = PeerEvent::Payload { control: None, bundle: Some(bundle) };
            let first = peer_next(held, PeerStateView::Payload { len }, came);
            let second = peer_next(held, first, PeerEvent::AckWritten { succeeded: true });
            let third = peer_next(held, second, PeerEvent::Prepared { succeeded: true });
            let last = peer_next(held, third, PeerEvent::Done);
            &&& first == (PeerStateView::Acknowledge { bundle: bundle@ })
            &&& second == (PeerStateView::Prepare { bundle: bundle@ })
            &&& third == (PeerStateView::Route { bundle: bundle@ })
            &&& last == PeerStateView::Header
        }),
{
}

/// The bundle that is acknowledged, prepared for and routed is the one that came in,
/// with all that belongs to it.
pub proof fn carried_bundle_is_the_one_that_came(
    len: usize,
    bundle: Bundle,
    succeeded: bool,
)
    ensures
        carried_next(
            PeerState::Payload { len },
            PeerEvent::Payload { control: None, bundle: Some(bundle) },
        ) == Some(bundle),
        carried_next(
            PeerState::Acknowledge { bundle },
            PeerEvent::AckWritten { succeeded },
        ) == (if succeeded {
            Some(bundle)
        } else {
            None
        }),
        carried_next(PeerState::Prepare { bundle }, PeerEvent::Prepared { succeeded }) == (
        if succeeded {
            Some(bundle)
        } else {
            None
        }),
        carried_next(PeerState::Route { bundle }, PeerEvent::Done) is None,
        carried_next(PeerState::Acknowledge { bundle }, PeerEvent::Done) == Some(bundle),
        carried_next(PeerState::Prepare { bundle }, PeerEvent::Done) == Some(bundle),
{
}

/// A bundle that cannot be acknowledged or prepared for is not routed: the
/// connection ends.
pub proof fn failure_ends_the_conversation(held: Seq<BundleView>, bundle: BundleView, len: int)
    ensures
        peer_next(
            held,
            PeerStateView::Acknowledge { bundle },
            PeerEvent::AckWritten { succeeded: false },
        ) == PeerStateView::Closed,
        peer_next(
            held,
            PeerStateView::Prepare { bundle },
            PeerEvent::Prepared { succeeded: false },
        ) == PeerStateView::Closed,
        peer_next(held, PeerStateView::Header, PeerEvent::ReadFailed) == PeerStateView::Closed,
        peer_next(held, PeerStateView::Payload { len }, PeerEvent::ReadFailed)
            == PeerStateView::Closed,
{
}

/// A request for the summary vector is answered with the identifiers of all bundles
/// held, in their order, whoever asks; no other message is answered. After the
/// answer, or where there is none, the next frame is read. A payload that can be
/// read as a message is taken as one, whatever else it could be.
pub proof fn requests_are_answered(
    held: Seq<BundleView>,
    len: int,
    message: BundleKind,
    bundle: Option<Bundle>,
    i: int,
)
    ensures
        ({
            let came = PeerEvent::Payload { control: Some(message), bundle };
            let next = peer_next(held, PeerStateView::Payload { len }, came);
            &&& message is RequestSV ==> {
                &&& next matches PeerStateView::Reply { message: reply }
                &&& reply matches BundleKindView::SummaryVector { ids }
                &&& ids.len() == held.len()
                &&& 0 <= i < held.len() ==> ids[i] == held[i].id
                &&& peer_next(held, next, PeerEvent::Done) == PeerStateView::Header
            }
            &&& !(message is RequestSV) ==> next == PeerStateView::Header
        }),
{
}

/// The header of a frame announces the length of the payload, most significant byte
/// first.
pub proof fn header_is_big_endian(
    held: Seq<BundleView>,
    bytes: [u8; 4],
)
    ensures
        peer_next(held, PeerStateView::Header, PeerEvent::Header { bytes }) == (
        PeerStateView::Payload {
            len: bytes@[0] * 16_777_216 + bytes@[1] * 65_536 + bytes@[2] * 256 + bytes@[3],
        }),
{
}

/// The bytes of a header, most significant first, add up to the length they stand
/// for, cut to what fits.
pub proof fn header_bytes_are_big_endian(len: int)
    requires
        0 <= len,
    ensures
        be_bytes(len).len() == 4,
        be_bytes(len)[0] * 16_777_216 + be_bytes(len)[1] * 65_536 + be_bytes(len)[2] * 256
            + be_bytes(len)[3] == len % 4_294_967_296,
{
    let a = len / 256;
    let b = a / 256;
    let c = b / 256;
    let d = c / 256;
    assert(len / 65_536 == b);
    assert(len / 16_777_216 == c);
    assert(len == a * 256 + len % 256);
    assert(a == b * 256 + a % 256);
    assert(b == c * 256 + b % 256);
    assert(c == d * 256 + c % 256);
    let low = (c % 256) * 16_777_216 + (b % 256) * 65_536 + (a % 256) * 256 + len % 256;
    assert(len == d * 4_294_967_296 + low);
    assert(0 <= low < 4_294_967_296);
    assert(low == len % 4_294_967_296);
    assert(be_bytes(len)[0] == c % 256);
    assert(be_bytes(len)[1] == b % 256);
    assert(be_bytes(len)[2] == a % 256);
    assert(be_bytes(len)[3] == len % 256);
}

/// A frame is its header and then its payload, as it is.
pub proof fn frame_is_header_and_payload(payload: Seq<u8>)
    ensures
        framed(payload).len() == payload.len() + 4,
        framed(payload).skip(4) == payload,
        framed(payload).take(4) == be_bytes(payload.len() as int),
{
    assert(framed(payload).skip(4) =~= payload);
    assert(framed(payload).take(4) =~= be_bytes(payload.len() as int));
}

/// What is not due changes nothing in a conversation: a header only counts where one
/// is read, a payload where one is read, word of the acknowledgement where one is
/// written, word of the preparation where there is one, and the end of a task where
/// one runs.
pub proof fn undue_events_change_nothing(
    held: Seq<BundleView>,
    state: PeerStateView,
    event: PeerEvent,
)
    requires
        event is Header ==> !(state is Header),
        event is Payload ==> !(state is Payload),
        event is ReadFailed ==> !(state is Header) && !(state is Payload),
        event is AckWritten ==> !(state is Acknowledge),
        event is Prepared ==> !(state is Prepare),
        event is Done ==> !(state is Reply) && !(state is Route),
    ensures
        peer_next(held, state, event) == state,
{
}

/// A bundle is received if and only if its frame was read and decoded; whether the
/// acknowledgement could be written does not matter. What was read is what is
/// received.
pub proof fn receipt_runs_through(bytes: [u8; 4], bundle: Option<Bundle>, succeeded: bool)
    ensures
        ({
            let first = receive_next(ReceiveState::Header, ReceiveEvent::Header { bytes });
            let second = receive_next(first, ReceiveEvent::Payload { bundle });
            let last = receive_next(second, ReceiveEvent::AckWritten { succeeded });
            &&& first matches ReceiveState::Payload { len }
            &&& len == bytes@[0] * 16_777_216 + bytes@[1] * 65_536 + bytes@[2] * 256 + bytes@[3]
            &&& bundle matches Some(came) ==> second == (ReceiveState::Acknowledge { bundle: came })
                && last == (ReceiveState::Received { bundle: came })
            &&& bundle is None ==> second == ReceiveState::Failed && last == ReceiveState::Failed
            &&& receive_next(ReceiveState::Header, ReceiveEvent::ReadFailed) == ReceiveState::Failed
            &&& receive_next(first, ReceiveEvent::ReadFailed) == ReceiveState::Failed
        }),
{
}

/// What is not due changes nothing in the receipt of a bundle; once it has ended,
/// nothing does.
pub proof fn undue_events_do_not_touch_a_receipt(state: ReceiveState, event: ReceiveEvent)
    requires
        event is Header ==> !(state is Header),
        event is Payload ==> !(state is Payload),
        event is ReadFailed ==> !(state is Header) && !(state is Payload),
        event is AckWritten ==> !(state is Acknowledge),
    ensures
        receive_next(state, event) == state,
{
}

/// The registry's reply to a question holds a record if and only if it is listed, is
/// connected, and is named or no node is.
pub proof fn reply_is_exact(
    registry: Seq<PeerRecordView>,
    ids: Vec<Id>,
    record: PeerRecordView,
)
    ensures
        answer(
            registry,
            ClientEvent::Request(ServerRequest::GetConnectedPeers(ids)),
        ) matches Some(ServerResponseView::Peers(records)) && (records.contains(record) <==> {
            &&& registry.contains(record)
            &&& record.status == ConnectionStatus::Connected
            &&& ids@.len() == 0 || ids@.contains(record.node.id)
        }),
{
    answer_is_exact(registry, ids@, record);
}

/// The records in a reply come in the order in which they are listed, each once.
pub proof fn reply_keeps_order(registry: Seq<PeerRecordView>, ids: Vec<Id>, i: int, j: int)
    ensures
        answer(
            registry,
            ClientEvent::Request(ServerRequest::GetConnectedPeers(ids)),
        ) matches Some(ServerResponseView::Peers(records)) && (0 <= i < j < records.len()
            ==> exists|a: int, b: int|
            0 <= a < b < registry.len() && #[trigger] registry[a] == records[i]
                && #[trigger] registry[b] == records[j]),
{
    let keep = |other: PeerRecordView| is_asked_for(other, ids@);
    if 0 <= i < j < connected_peers(registry, ids@).len() {
        filter_keeps_order(registry, keep, i, j);
    }
}

/// What else the registry answers: a registration is accepted; what is no request is
/// answered with the reason for that; the end of a connection with nothing.
pub proof fn other_answers(registry: Seq<PeerRecordView>, node: Node, reason: String)
    ensures
        answer(registry, ClientEvent::Request(ServerRequest::Register(node))) == Some(
            ServerResponseView::Accepted,
        ),
        answer(registry, ClientEvent::Invalid(reason)) == Some(
            ServerResponseView::Error("Invalid request JSON: "@ + reason@),
        ),
        answer(registry, ClientEvent::Closed) is None,
{
}

/// While the registry is out of use, no node is listed or named, and what is no
/// request is still answered with the reason.
pub proof fn answers_without_registry(node: Node, ids: Vec<Id>, reason: String)
    ensures
        answer_without_registry(ClientEvent::Request(ServerRequest::Register(node))) == Some(
            ServerResponseView::Error("Registry lock poisoned"@),
        ),
        answer_without_registry(
            ClientEvent::Request(ServerRequest::GetConnectedPeers(ids)),
        ) matches Some(ServerResponseView::Peers(records)) && records.len() == 0,
        answer_without_registry(ClientEvent::Invalid(reason)) == Some(
            ServerResponseView::Error("Invalid request JSON: "@ + reason@),
        ),
        answer_without_registry(ClientEvent::Closed) is None,
{
}

/// A connection stands for the node that last registered on it.
pub proof fn session_is_the_last_registered(session: Option<Id>, event: ClientEvent)
    ensures
        event matches ClientEvent::Request(ServerRequest::Register(node)) ==> next_session(
            session,
            event,
        ) == Some(node.id),
        !(event matches ClientEvent::Request(ServerRequest::Register(_))) ==> next_session(
            session,
            event,
        ) == session,
{
}

/// What is listed after anything that happens on a connection. A node that registers
/// is listed as it is now and connected, and in no other way. A node whose
/// connection ends is listed as it was, and disconnected. All else is as before.
pub proof fn registry_follows_the_connections(
    registry: Seq<PeerRecordView>,
    session: Option<Id>,
    event: ClientEvent,
    record: PeerRecordView,
)
    requires
        nodes_distinct(registry),
    ensures
        next_registry(registry, session, event).contains(record) <==> match event {
            ClientEvent::Request(ServerRequest::Register(node)) => {
                if record.node.id == node.id {
                    record.node == node@ && record.status == ConnectionStatus::Connected
                } else {
                    registry.contains(record)
                }
            },
            ClientEvent::Closed => {
                if session == Some(record.node.id) {
                    record.status == ConnectionStatus::Disconnected
                        && exists|other: PeerRecordView|
                        #[trigger] registry.contains(other) && other.node == record.node
                } else {
                    registry.contains(record)
                }
            },
            _ => registry.contains(record),
        },
        nodes_distinct(next_registry(registry, session, event)),
{
    match event {
        ClientEvent::Request(ServerRequest::Register(node)) => {
            let after = registered(registry, node@);
            registered_is_listed(registry, node@);
            if record.node.id == node.id {
                if after.contains(record) {
                    let i = choose|i: int| 0 <= i < after.len() && after[i] == record;
                    if i < registry.len() {
                        if !lists_id(registry, node.id) {
                            assert(registry[i].node.id == node.id);
                        }
                    }
                }
            } else {
                registering_leaves_others(registry, node@, record);
            }
        },
        ClientEvent::Closed => {
            if let Some(id) = session {
                let after = disconnected(registry, id);
                assert(forall|k: int|
                    0 <= k < registry.len() ==> (#[trigger] after[k]).node.id == registry[k].node.id);
                disconnected_is_not_found(registry, id, Seq::empty(), record);
                if id == record.node.id {
                    if after.contains(record) {
                        let i = choose|i: int| 0 <= i < after.len() && after[i] == record;
                        assert(registry.contains(registry[i]));
                        assert(registry[i].node == record.node);
                    }
                    if record.status == ConnectionStatus::Disconnected
                        && exists|other: PeerRecordView|
                        #[trigger] registry.contains(other) && other.node == record.node {
                        let other = choose|other: PeerRecordView|
                            #[trigger] registry.contains(other) && other.node == record.node;
                        let i = choose|i: int| 0 <= i < registry.len() && registry[i] == other;
                        assert(after[i] == record);
                    }
                }
            }
        },
        _ => {},
    }
}

/// A shutdown keeps every node listed as it is, and disconnected.
pub proof fn shutdown_keeps_the_nodes(registry: Seq<PeerRecordView>, i: int)
    requires
        0 <= i < registry.len(),
    ensures
        all_disconnected(registry).len() == registry.len(),
        all_disconnected(registry)[i].node == registry[i].node,
        all_disconnected(registry)[i].status == ConnectionStatus::Disconnected,
{
}

/// A node is listed if and only if there is a record of it, and nodes are distinct if
/// and only if no two places are of one.
pub proof fn listed_means_among_the_records(registry: Seq<PeerRecordView>, id: Id)
    ensures
        lists_id(registry, id) <==> exists|record: PeerRecordView|
            #[trigger] registry.contains(record) && record.node.id == id,
        nodes_distinct(registry) <==> forall|i: int, j: int|
            0 <= i < j < registry.len() ==> (#[trigger] registry[i]).node.id != (
            #[trigger] registry[j]).node.id,
{
    if lists_id(registry, id) {
        let i = choose|i: int| 0 <= i < registry.len() && (#[trigger] registry[i]).node.id == id;
        assert(registry.contains(registry[i]));
    }
    if exists|record: PeerRecordView| #[trigger] registry.contains(record) && record.node.id == id {
        let record = choose|record: PeerRecordView|
            #[trigger] registry.contains(record) && record.node.id == id;
        let i = choose|i: int| 0 <= i < registry.len() && registry[i] == record;
        assert(registry[i].node.id == id);
    }
}

/// A name is free if and only if no node that is listed, connected or not, has it.
pub proof fn free_name_is_nobodys(registry: Seq<PeerRecordView>, name: Seq<char>)
    ensures
        name_is_free(registry, name) <==> !exists|record: PeerRecordView|
            #[trigger] registry.contains(record) && record.node.name == name,
{
    if exists|record: PeerRecordView| #[trigger] registry.contains(record) && record.node.name
        == name {
        let record = choose|record: PeerRecordView|
            #[trigger] registry.contains(record) && record.node.name == name;
        let i = choose|i: int| 0 <= i < registry.len() && registry[i] == record;
        assert(registry[i].node.name == name);
    }
    if !name_is_free(registry, name) {
        let i = choose|i: int| 0 <= i < registry.len() && (#[trigger] registry[i]).node.name == name;
        assert(registry.contains(registry[i]));
    }
}

/// The name of a node that registers is taken from then on.
pub proof fn registered_name_is_taken(registry: Seq<PeerRecordView>, node: NodeView)
    requires
        nodes_distinct(registry),
    ensures
        !name_is_free(registered(registry, node), node.name),
{
    registered_is_listed(registry, node);
    free_name_is_nobodys(registered(registry, node), node.name);
    let record = PeerRecordView { node, status: ConnectionStatus::Connected };
    assert(registered(registry, node).contains(record));
}

/// What follows on a try: a connection is used; a failure is followed by the next
/// try, after the wait, while there are tries left, and else by giving up. The first
/// try comes at once. Without a try, nothing changes.
pub proof fn try_is_followed_up(
    step: ConnectStep,
    max_retries: u32,
    delay_secs: u64,
    connected: bool,
)
    ensures
        ({
            let next = after_try(step, max_retries, delay_secs, connected);
            &&& !(step is Try) ==> next == step
            &&& step is Try && connected ==> next == ConnectStep::Connected
            &&& step matches ConnectStep::Try { attempt, .. } ==> (!connected && attempt
                >= max_retries ==> next == ConnectStep::Exhausted)
            &&& step matches ConnectStep::Try { attempt, .. } ==> (!connected && attempt
                < max_retries ==> (next matches ConnectStep::Try { attempt: again, delay_secs: wait }
                && again == attempt + 1 && wait == delay_secs))
        }),
        max_retries > 0 ==> first_try(max_retries) == (ConnectStep::Try {
            attempt: 1,
            delay_secs: 0,
        }),
        max_retries == 0 ==> first_try(max_retries) == ConnectStep::Exhausted,
{
}

/// The steps of a registration: each that succeeds leads to the next, and a failure
/// to connect, encode or send ends it. What has ended stays so.
pub proof fn registration_goes_step_by_step(succeeded: bool)
    ensures
        registration_next(RegistrationStage::Connecting, true) == RegistrationStage::Encoding,
        registration_next(RegistrationStage::Encoding, true) == RegistrationStage::Sending,
        registration_next(RegistrationStage::Sending, true) == RegistrationStage::AwaitingReply,
        registration_next(RegistrationStage::Connecting, false) == RegistrationStage::Failed,
        registration_next(RegistrationStage::Encoding, false) == RegistrationStage::Failed,
        registration_next(RegistrationStage::Sending, false) == RegistrationStage::Failed,
        registration_next(RegistrationStage::AwaitingReply, succeeded)
            == RegistrationStage::Registered,
        registration_next(RegistrationStage::Registered, succeeded)
            == RegistrationStage::Registered,
        registration_next(RegistrationStage::Failed, succeeded) == RegistrationStage::Failed,
{
}

/// The steps of a sending: each that succeeds leads to the next, and a failure to
/// encode, connect or write ends it without the bundle having been written. What has
/// ended stays so.
pub proof fn sending_goes_step_by_step(succeeded: bool)
    ensures
        send_next(SendStage::Encoding, true) == SendStage::Connecting,
        send_next(SendStage::Connecting, true) == SendStage::Writing,
        send_next(SendStage::Writing, true) == SendStage::AwaitingAck,
        send_next(SendStage::AwaitingAck, true) == SendStage::Acknowledged,
        send_next(SendStage::AwaitingAck, false) == SendStage::Unacknowledged,
        send_next(SendStage::Encoding, false) == SendStage::Aborted,
        send_next(SendStage::Connecting, false) == SendStage::Aborted,
        send_next(SendStage::Writing, false) == SendStage::Aborted,
        send_next(SendStage::Acknowledged, succeeded) == SendStage::Acknowledged,
        send_next(SendStage::Unacknowledged, succeeded) == SendStage::Unacknowledged,
        send_next(SendStage::Aborted, succeeded) == SendStage::Aborted,
        !counts_as_written(SendStage::Encoding),
        !counts_as_written(SendStage::Connecting),
        !counts_as_written(SendStage::Writing),
        !counts_as_written(SendStage::Aborted),
        counts_as_written(SendStage::AwaitingAck),
{
}

/// What an error says: which peer could not be reached, why the connection broke, or
/// that the peer answered something else.
pub proof fn errors_say_what_went_wrong(destination: String, reason: String)
    ensures
        summary_error_text(SummaryError::Unreachable { destination }) == "could not reach peer "@
            + destination@,
        summary_error_text(SummaryError::Transport { reason }) == reason@,
        summary_error_text(SummaryError::UnexpectedReply) == "unexpected response from peer"@,
{
}

/// A registry that is named is the one that is used.
pub proof fn named_registry_is_used(named: &str)
    ensures
        registry_text(Some(named)) == named@,
        registry_text(None) == "127.0.0.1:9100"@,
{
}

/// A record that looks like another is of the same node and status, and a transfer
/// that looks like another goes from and to the same and carries the same.
pub proof fn record_and_transfer_views_are_complete(
    record: PeerRecord,
    other: PeerRecord,
    transfer: Transfer,
    second: Transfer,
)
    ensures
        record@ == other@ <==> record.node@ == other.node@ && record.status == other.status,
        transfer@ == second@ <==> transfer.source_id == second.source_id && transfer.bundle@
            == second.bundle@ && transfer.destination@ == second.destination@,
{
}

/// A response that looks like another is of the same kind and says the same.
pub proof fn response_view_is_complete(response: ServerResponse, other: ServerResponse, i: int)
    requires
        response@ == other@,
    ensures
        match (response, other) {
            (ServerResponse::Accepted, ServerResponse::Accepted) => true,
            (ServerResponse::Error(left), ServerResponse::Error(right)) => left@ == right@,
            (ServerResponse::Peers(left), ServerResponse::Peers(right)) => left@.len()
                == right@.len() && (0 <= i < left@.len() ==> left@[i]@ == right@[i]@),
            _ => false,
        },
{
    if let ServerResponse::Peers(left) = response {
        if let ServerResponse::Peers(right) = other {
            let views = record_views(left@);
            assert(views == record_views(right@));
            assert(views.len() == left@.len() && views.len() == right@.len());
            if 0 <= i < left@.len() {
                assert(views[i] == left@[i]@ && views[i] == right@[i]@);
            }
        }
    }
}

/// A server lists its records, in their order; where it is as it should be, no node
/// occurs twice and no record holds an engine.
pub proof fn server_view_is_complete(server: Server, i: int, j: int)
    ensures
        server@.len() == server.peer_registry@.len(),
        0 <= i < server@.len() ==> server@[i] == server.peer_registry@[i]@,
        server.wf() && 0 <= i < j < server@.len() ==> server.peer_registry@[i].node.id
            != server.peer_registry@[j].node.id,
        server.wf() && 0 <= i < server@.len()
            ==> server.peer_registry@[i].node.routing_engine is None,
{
    if server.wf() && 0 <= i < j < server@.len() {
        assert(server@[i].node.id == server.peer_registry@[i].node.id);
        assert(server@[j].node.id == server.peer_registry@[j].node.id);
    }
    if server.wf() && 0 <= i < server@.len() {
        assert(server.peer_registry@[i].node.is_detached());
    }
}

/// What is replied is what the action says, and what is answered what the answer
/// says.
pub proof fn replies_are_what_is_said(response: ServerResponse, kind: BundleKind)
    ensures
        ClientAction::Reply(response).reply() == Some(response@),
        ClientAction::Close.reply() is None,
        answer_view(Some(kind)) == Some(kind@),
        answer_view(None) is None,
{
}

/// What is seen of a conversation is how far it is, and the message or the bundle
/// that it is about.
pub proof fn conversation_view_is_complete(state: PeerState)
    ensures
        match state {
            PeerState::Header => state@ == PeerStateView::Header && state.carried() is None,
            PeerState::Payload { len } => state@ == (PeerStateView::Payload { len: len as int })
                && state.carried() is None,
            PeerState::Reply { message } => state@ == (PeerStateView::Reply { message: message@ })
                && state.carried() is None,
            PeerState::Acknowledge { bundle } => state@ == (PeerStateView::Acknowledge {
                bundle: bundle@,
            }) && state.carried() == Some(bundle),
            PeerState::Prepare { bundle } => state@ == (PeerStateView::Prepare { bundle: bundle@ })
                && state.carried() == Some(bundle),
            PeerState::Route { bundle } => state@ == (PeerStateView::Route { bundle: bundle@ })
                && state.carried() == Some(bundle),
            PeerState::Closed => state@ == PeerStateView::Closed && state.carried() is None,
        },
{
}

} // verus!
