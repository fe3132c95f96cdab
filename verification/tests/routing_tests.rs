use whatspace::network::client::SummaryError;
use whatspace::network::server::{ConnectionStatus, PeerRecord, ServerRequest, ServerResponse};
use whatspace::routing::bundle_manager::BundleManager;
use whatspace::routing::engine::{RouteEvent, RouteQuestion, RouteState, RoutingEngine, Transfer};
use whatspace::routing::model::{Bundle, BundleKind, MsgStatus, Node};
use whatspace::routing::scf::{drop_expired_bundles, drop_expired_bundles_at, store};
use whatspace::time::Timestamp;

fn at(secs: i64) -> Timestamp {
    Timestamp::new(secs, 0).unwrap()
}

fn node(name: &str, port: u16) -> Node {
    Node::new(name, "127.0.0.1", port, vec![])
}

fn data(id: u128, from: &str, to: &str, made: i64, ttl: u64) -> Bundle {
    let kind = BundleKind::Data { msg: "m".to_string() };
    Bundle::assemble(id, at(made), node(from, 1), node(to, 2), kind, ttl)
}

fn engine_of(name: &str) -> RoutingEngine {
    *node(name, 1).routing_engine.unwrap()
}

fn held(manager: &BundleManager) -> Vec<(u128, MsgStatus)> {
    manager.all().iter().map(|b| (b.id, b.shipment_status)).collect()
}

fn record(name: &str, port: u16) -> PeerRecord {
    PeerRecord { node: node(name, port).detached(), status: ConnectionStatus::Connected }
}

fn sent(transfers: &[Transfer]) -> Vec<(u128, u128, String)> {
    transfers.iter().map(|t| (t.source_id, t.bundle.id, t.destination.clone())).collect()
}

#[test]
fn saving_keeps_the_first_and_updating_replaces() {
    let mut manager = BundleManager::new(9, "x".to_string());
    let mut first = data(1, "a", "b", 0, 10);
    assert!(manager.save_bundle(&first));
    first.shipment_status = MsgStatus::Delivered;
    assert!(!manager.save_bundle(&first));
    assert_eq!(held(&manager), vec![(1, MsgStatus::Pending)]);
    assert!(manager.update_bundle(&first));
    assert_eq!(held(&manager), vec![(1, MsgStatus::Delivered)]);
    assert!(!manager.update_bundle(&data(2, "a", "b", 0, 10)));
    assert_eq!(manager.all().len(), 1);
    manager.put_bundle(&data(2, "a", "b", 0, 10));
    manager.put_bundle(&data(1, "a", "b", 0, 10));
    assert_eq!(held(&manager), vec![(1, MsgStatus::Pending), (2, MsgStatus::Pending)]);
}

#[test]
fn deleting_takes_out_one() {
    let mut manager = BundleManager::new(9, "x".to_string());
    for id in 1..4 {
        manager.save_bundle(&data(id, "a", "b", 0, 10));
    }
    assert!(manager.delete_bundle(2));
    assert!(!manager.delete_bundle(2));
    assert_eq!(held(&manager), vec![(1, MsgStatus::Pending), (3, MsgStatus::Pending)]);
    manager.save_bundle(&data(2, "a", "b", 0, 10));
    manager.delete_bundle(2);
    assert_eq!(manager.all().len(), 2);
}

#[test]
fn stored_bundles_carry_no_engine() {
    let mut manager = BundleManager::new(9, "x".to_string());
    let mut bundle = data(1, "a", "b", 0, 10);
    bundle.source = node("a", 1);
    assert!(bundle.source.routing_engine.is_some());
    manager.save_bundle(&bundle);
    assert!(manager.all()[0].source.routing_engine.is_none());
    let copies = manager.get_bundles_from_node();
    assert_eq!(copies.len(), 1);
    assert_eq!(copies[0].id, 1);
}

#[test]
fn received_bundle_at_its_destination_is_delivered() {
    let bob = node("bob", 1);
    let mut manager = BundleManager::new(bob.id, "bob".to_string());
    let mut bundle = data(1, "alice", "bob", 100, 10);
    RoutingEngine::process_received_bundle_at(bob.id, &mut bundle, &mut manager, at(110));
    assert_eq!(bundle.shipment_status, MsgStatus::Delivered);
    assert_eq!(held(&manager), vec![(1, MsgStatus::Delivered)]);
}

#[test]
fn received_bundle_at_a_relay_is_in_transit() {
    let carol = node("carol", 1);
    let mut manager = BundleManager::new(carol.id, "carol".to_string());
    let mut bundle = data(1, "alice", "bob", 100, 10);
    manager.save_bundle(&bundle);
    RoutingEngine::process_received_bundle_at(carol.id, &mut bundle, &mut manager, at(100));
    assert_eq!(bundle.shipment_status, MsgStatus::InTransit);
    assert_eq!(held(&manager), vec![(1, MsgStatus::InTransit)]);
}

#[test]
fn received_bundle_that_is_expired_is_discarded() {
    let bob = node("bob", 1);
    let mut manager = BundleManager::new(bob.id, "bob".to_string());
    let mut bundle = data(1, "alice", "bob", 100, 10);
    RoutingEngine::process_received_bundle_at(bob.id, &mut bundle, &mut manager, at(111));
    assert_eq!(bundle.shipment_status, MsgStatus::Expired);
    assert_eq!(manager.all().len(), 0);
    let mut old = data(2, "alice", "bob", 0, 1);
    RoutingEngine::process_received_bundle(bob.id, &mut old, &mut manager);
    assert_eq!(old.shipment_status, MsgStatus::Expired);
}

#[test]
fn anti_entropy_picks_what_the_peer_lacks() {
    let engine = engine_of("alice");
    let local: Vec<Bundle> = (1..5).map(|id| data(id, "a", "b", 0, 10)).collect();
    let missing = engine.anti_entropy(&local, &[2, 9, 4]);
    let ids: Vec<u128> = missing.iter().map(|b| b.id).collect();
    assert_eq!(ids, vec![1, 3]);
    assert_eq!(engine.anti_entropy(&local, &[2, 9, 4, 1, 3]).len(), 0);
    assert_eq!(engine.anti_entropy(&local, &[]).len(), 4);
    assert_eq!(engine.anti_entropy(&[], &[1]).len(), 0);
}

#[test]
fn failed_summary_counts_as_empty() {
    let engine = engine_of("alice");
    assert_eq!(engine.get_peer_summary_vector(Ok(vec![4, 5])), vec![4, 5]);
    let none: Vec<u128> = vec![];
    assert_eq!(engine.get_peer_summary_vector(Err(SummaryError::UnexpectedReply)), none);
}

#[test]
fn registry_answers_are_read() {
    let engine = engine_of("alice");
    assert!(matches!(engine.registry_question(), ServerRequest::GetConnectedPeers(ids) if ids.is_empty()));
    let peers = engine.query_registry_peers(Some(ServerResponse::Peers(vec![record("bob", 2)])));
    assert_eq!(peers.len(), 1);
    assert_eq!(peers[0].node.name, "bob");
    assert_eq!(engine.query_registry_peers(None).len(), 0);
    assert_eq!(engine.query_registry_peers(Some(ServerResponse::Accepted)).len(), 0);
    let error = ServerResponse::Error("no".to_string());
    assert_eq!(engine.query_registry_peers(Some(error)).len(), 0);
}

#[test]
fn routed_bundle_is_delivered_at_its_destination() {
    let mut engine = engine_of("bob");
    let mut bundle = data(1, "alice", "bob", 0, 1);
    let state = engine.route_bundle_at(&mut bundle, at(1_000_000));
    assert!(matches!(state, RouteState::Finished));
    assert!(matches!(state.question(), RouteQuestion::Nothing));
    assert_eq!(bundle.shipment_status, MsgStatus::Delivered);
    assert_eq!(held(&engine.bundle_manager), vec![(1, MsgStatus::Delivered)]);
}

#[test]
fn routed_bundle_that_is_expired_is_kept_as_expired() {
    let mut engine = engine_of("carol");
    let mut bundle = data(1, "alice", "bob", 0, 1);
    let state = engine.route_bundle(&mut bundle);
    assert!(matches!(state, RouteState::Finished));
    assert_eq!(bundle.shipment_status, MsgStatus::Expired);
    assert_eq!(held(&engine.bundle_manager), vec![(1, MsgStatus::Expired)]);
}

#[test]
fn forwarding_brings_each_peer_what_it_lacks() {
    let mut engine = engine_of("alice");
    let me = engine.node_id;
    let mut earlier = data(7, "alice", "dave", 100, 50);
    engine.bundle_manager.save_bundle(&earlier);
    earlier.id = 8;
    earlier.shipment_status = MsgStatus::InTransit;
    engine.bundle_manager.save_bundle(&earlier);

    let mut bundle = data(1, "alice", "bob", 100, 50);
    let state = engine.route_bundle_at(&mut bundle, at(120));
    assert!(matches!(&state, RouteState::Forward { pending } if pending.len() == 2));
    assert!(matches!(state.question(), RouteQuestion::Registry));

    let peers = vec![record("bob", 81), record("carol", 82), record("dave", 83)];
    let reply = RouteEvent::Registry(Some(ServerResponse::Peers(peers)));
    let (state, transfers) = engine.continue_route(&mut bundle, state, reply);
    assert_eq!(transfers.len(), 0);
    assert!(matches!(state.question(), RouteQuestion::Summary { destination } if destination == "127.0.0.1:81"));

    let (state, transfers) = engine.continue_route(&mut bundle, state, RouteEvent::Summary(Ok(vec![7])));
    assert_eq!(sent(&transfers), vec![(me, 1, "127.0.0.1:81".to_string())]);
    assert!(matches!(state.question(), RouteQuestion::Transfers));
    let (state, transfers) = engine.continue_route(&mut bundle, state, RouteEvent::Sent(vec![false]));
    assert_eq!(transfers.len(), 0);
    assert!(matches!(state.question(), RouteQuestion::Summary { destination } if destination == "127.0.0.1:82"));
    assert_eq!(bundle.shipment_status, MsgStatus::Pending);

    let failure = SummaryError::Unreachable { destination: "127.0.0.1:82".to_string() };
    let (state, transfers) = engine.continue_route(&mut bundle, state, RouteEvent::Summary(Err(failure)));
    let to = "127.0.0.1:82".to_string();
    assert_eq!(sent(&transfers), vec![(me, 7, to.clone()), (me, 1, to)]);
    let (state, _) = engine.continue_route(&mut bundle, state, RouteEvent::Sent(vec![false, true]));

    // An answer to what was not asked changes nothing.
    let (state, transfers) = engine.continue_route(&mut bundle, state, RouteEvent::Registry(None));
    assert_eq!(transfers.len(), 0);
    assert!(matches!(state.question(), RouteQuestion::Summary { destination } if destination == "127.0.0.1:83"));

    let (state, transfers) = engine.continue_route(&mut bundle, state, RouteEvent::Summary(Ok(vec![1, 7])));
    assert_eq!(transfers.len(), 0);
    let (state, transfers) = engine.continue_route(&mut bundle, state, RouteEvent::Sent(vec![]));
    assert_eq!(transfers.len(), 0);
    assert!(matches!(state, RouteState::Finished));
    assert_eq!(bundle.shipment_status, MsgStatus::InTransit);
    let after = vec![(7, MsgStatus::Pending), (8, MsgStatus::InTransit), (1, MsgStatus::InTransit)];
    assert_eq!(held(&engine.bundle_manager), after);
}

#[test]
fn forwarding_without_peers_keeps_the_bundle_pending() {
    let mut engine = engine_of("alice");
    let mut bundle = data(1, "alice", "bob", 100, 50);
    let state = engine.route_bundle_at(&mut bundle, at(120));
    let (state, transfers) = engine.continue_route(&mut bundle, state, RouteEvent::Registry(None));
    assert!(matches!(state, RouteState::Finished));
    assert_eq!(transfers.len(), 0);
    assert_eq!(bundle.shipment_status, MsgStatus::Pending);
    assert_eq!(held(&engine.bundle_manager), vec![(1, MsgStatus::Pending)]);
}

/// Routes a bundle past one peer that holds nothing, and says of each transfer
/// whether it was written.
fn route_past_bob(engine: &mut RoutingEngine, bundle: &mut Bundle, written: Vec<bool>) -> Vec<u128> {
    let state = engine.route_bundle_at(bundle, at(120));
    let reply = RouteEvent::Registry(Some(ServerResponse::Peers(vec![record("bob", 81)])));
    let (state, _) = engine.continue_route(bundle, state, reply);
    let (state, transfers) = engine.continue_route(bundle, state, RouteEvent::Summary(Ok(vec![])));
    let (state, none) = engine.continue_route(bundle, state, RouteEvent::Sent(written));
    assert_eq!(none.len(), 0);
    assert!(matches!(state, RouteState::Finished));
    transfers.iter().map(|t| t.bundle.id).collect()
}

#[test]
fn unsent_bundle_is_offered_again() {
    let mut engine = engine_of("alice");
    let mut first = data(1, "alice", "bob", 100, 50);
    assert_eq!(route_past_bob(&mut engine, &mut first, vec![false]), vec![1]);
    assert_eq!(first.shipment_status, MsgStatus::Pending);
    assert_eq!(held(&engine.bundle_manager), vec![(1, MsgStatus::Pending)]);

    // What was written of another bundle does not count.
    let mut second = data(2, "alice", "bob", 100, 50);
    assert_eq!(route_past_bob(&mut engine, &mut second, vec![true, false]), vec![1, 2]);
    assert_eq!(held(&engine.bundle_manager), vec![(1, MsgStatus::Pending), (2, MsgStatus::Pending)]);

    assert_eq!(route_past_bob(&mut engine, &mut first, vec![true, true]), vec![1, 2]);
    assert_eq!(first.shipment_status, MsgStatus::InTransit);
    assert_eq!(held(&engine.bundle_manager), vec![(1, MsgStatus::InTransit), (2, MsgStatus::Pending)]);

    // Nothing said is nothing written.
    assert_eq!(route_past_bob(&mut engine, &mut second, vec![]), vec![2]);
    assert_eq!(second.shipment_status, MsgStatus::Pending);
    assert_eq!(route_past_bob(&mut engine, &mut second, vec![true, true]), vec![2]);
    assert_eq!(second.shipment_status, MsgStatus::InTransit);
    let mut third = data(3, "alice", "bob", 100, 50);
    assert_eq!(route_past_bob(&mut engine, &mut third, vec![true]), vec![3]);
}

#[test]
fn word_of_transfers_is_ignored_where_none_are_out() {
    let mut engine = engine_of("alice");
    let mut bundle = data(1, "alice", "bob", 100, 50);
    let state = engine.route_bundle_at(&mut bundle, at(120));
    let (state, _) = engine.continue_route(&mut bundle, state, RouteEvent::Sent(vec![true]));
    assert!(matches!(state.question(), RouteQuestion::Registry));
    let reply = RouteEvent::Registry(Some(ServerResponse::Peers(vec![record("bob", 81)])));
    let (state, _) = engine.continue_route(&mut bundle, state, reply);
    let (state, _) = engine.continue_route(&mut bundle, state, RouteEvent::Sent(vec![true]));
    assert!(matches!(state.question(), RouteQuestion::Summary { .. }));
    let (state, transfers) = engine.continue_route(&mut bundle, state, RouteEvent::Summary(Ok(vec![1])));
    assert_eq!(transfers.len(), 0);
    let (state, _) = engine.continue_route(&mut bundle, state, RouteEvent::Sent(vec![true]));
    assert!(matches!(state, RouteState::Finished));
    assert_eq!(bundle.shipment_status, MsgStatus::InTransit);
}

/// Routes a bundle past some peers, given what each holds and what was written to it.
fn route_past(engine: &mut RoutingEngine, bundle: &mut Bundle, peers: &[(Vec<u128>, Vec<bool>)]) {
    let mut state = engine.route_bundle_at(bundle, at(120));
    let records = (0..peers.len()).map(|i| record(&format!("peer{}", i), 90)).collect();
    let reply = RouteEvent::Registry(Some(ServerResponse::Peers(records)));
    state = engine.continue_route(bundle, state, reply).0;
    for (holds, written) in peers {
        state = engine.continue_route(bundle, state, RouteEvent::Summary(Ok(holds.clone()))).0;
        state = engine.continue_route(bundle, state, RouteEvent::Sent(written.clone())).0;
    }
    assert!(matches!(state, RouteState::Finished));
}

#[test]
fn bundle_that_all_peers_hold_is_in_transit() {
    let mut engine = engine_of("alice");
    let mut bundle = data(1, "alice", "bob", 100, 50);
    route_past(&mut engine, &mut bundle, &[(vec![1], vec![]), (vec![5, 1], vec![])]);
    assert_eq!(bundle.shipment_status, MsgStatus::InTransit);
    assert_eq!(held(&engine.bundle_manager), vec![(1, MsgStatus::InTransit)]);
}

#[test]
fn bundle_is_pending_only_if_nobody_who_lacked_it_got_it() {
    let status = |peers: &[(Vec<u128>, Vec<bool>)]| {
        let mut engine = engine_of("alice");
        let mut bundle = data(1, "alice", "bob", 100, 50);
        route_past(&mut engine, &mut bundle, peers);
        assert_eq!(held(&engine.bundle_manager), vec![(1, bundle.shipment_status)]);
        bundle.shipment_status
    };
    assert_eq!(status(&[]), MsgStatus::Pending);
    assert_eq!(status(&[(vec![], vec![false])]), MsgStatus::Pending);
    assert_eq!(status(&[(vec![1], vec![]), (vec![], vec![false])]), MsgStatus::Pending);
    assert_eq!(status(&[(vec![], vec![false]), (vec![1], vec![])]), MsgStatus::Pending);
    assert_eq!(status(&[(vec![], vec![true]), (vec![], vec![false])]), MsgStatus::InTransit);
    assert_eq!(status(&[(vec![], vec![false]), (vec![], vec![true])]), MsgStatus::InTransit);
    assert_eq!(status(&[(vec![1], vec![])]), MsgStatus::InTransit);
}

#[test]
fn copy_of_a_bundle_in_transit_does_not_set_it_back() {
    let cases: Vec<Vec<(Vec<u128>, Vec<bool>)>> =
        vec![vec![], vec![(vec![], vec![])], vec![(vec![1], vec![])], vec![(vec![], vec![false])]];
    for peers in cases {
        let mut engine = engine_of("alice");
        let mut first = data(1, "carol", "bob", 100, 50);
        first.shipment_status = MsgStatus::InTransit;
        engine.bundle_manager.save_bundle(&first);
        let mut copy = data(1, "carol", "bob", 100, 50);
        route_past(&mut engine, &mut copy, &peers);
        assert_eq!(copy.shipment_status, MsgStatus::InTransit);
        assert_eq!(held(&engine.bundle_manager), vec![(1, MsgStatus::InTransit)]);
    }
}

#[test]
fn transfers_carry_no_engine() {
    let mut engine = engine_of("alice");
    let original = data(1, "alice", "bob", 100, 50);
    let mut ack = Bundle::assemble_ack(&original, 2, at(110));
    ack.source = node("bob", 2);
    let state = engine.route_bundle_at(&mut ack, at(120));
    let reply = RouteEvent::Registry(Some(ServerResponse::Peers(vec![record("bob", 81)])));
    let (_, transfers) = engine.continue_route(&mut ack, state, reply);
    assert_eq!(transfers.len(), 1);
    assert!(ack.source.routing_engine.is_some());
    assert!(transfers[0].bundle.source.routing_engine.is_none());
}

#[test]
fn ack_clears_the_bundle_and_is_flooded() {
    let mut engine = engine_of("alice");
    let original = data(1, "alice", "bob", 100, 50);
    engine.bundle_manager.save_bundle(&original);
    engine.bundle_manager.save_bundle(&data(5, "alice", "bob", 100, 50));
    let mut ack = Bundle::assemble_ack(&original, 2, at(110));
    let state = engine.route_bundle_at(&mut ack, at(120));
    assert!(matches!(state, RouteState::FloodAck));
    assert_eq!(ack.shipment_status, MsgStatus::Delivered);
    assert_eq!(held(&engine.bundle_manager), vec![(5, MsgStatus::Pending), (2, MsgStatus::Delivered)]);

    let peers = vec![record("bob", 81), record("carol", 82)];
    let ids = (peers[0].node.id, peers[1].node.id);
    let reply = RouteEvent::Registry(Some(ServerResponse::Peers(peers)));
    let (state, transfers) = engine.continue_route(&mut ack, state, reply);
    assert!(matches!(state, RouteState::Finished));
    let expected =
        vec![(ids.0, 2, "127.0.0.1:81".to_string()), (ids.1, 2, "127.0.0.1:82".to_string())];
    assert_eq!(sent(&transfers), expected);
}

#[test]
fn ack_at_a_relay_stays_pending() {
    let mut engine = engine_of("carol");
    let original = data(1, "alice", "bob", 100, 50);
    engine.bundle_manager.save_bundle(&original);
    let mut ack = Bundle::assemble_ack(&original, 2, at(110));
    let state = engine.route_bundle_at(&mut ack, at(120));
    assert!(matches!(state, RouteState::FloodAck));
    assert_eq!(ack.shipment_status, MsgStatus::Pending);
    assert_eq!(held(&engine.bundle_manager), vec![(2, MsgStatus::Pending)]);
}

#[test]
fn own_ack_is_deleted() {
    let mut engine = engine_of("bob");
    let original = data(1, "alice", "bob", 100, 50);
    let mut ack = Bundle::assemble_ack(&original, 2, at(110));
    let state = engine.route_bundle_at(&mut ack, at(120));
    assert!(matches!(state, RouteState::Finished));
    assert_eq!(engine.bundle_manager.all().len(), 0);
}

#[test]
fn only_acks_are_taken_as_acks() {
    let mut manager = BundleManager::new(9, "x".to_string());
    let mut bundle = data(1, "a", "b", 0, 10);
    manager.save_bundle(&bundle);
    manager.handle_incoming_ack(&mut bundle);
    assert_eq!(held(&manager), vec![(1, MsgStatus::Pending)]);
}

#[test]
fn stored_bundle_is_pending_again() {
    let mut manager = BundleManager::new(9, "x".to_string());
    let mut bundle = data(1, "a", "b", 0, 10);
    bundle.shipment_status = MsgStatus::InTransit;
    store(&mut bundle, &mut manager);
    assert_eq!(bundle.shipment_status, MsgStatus::Pending);
    assert_eq!(held(&manager), vec![(1, MsgStatus::Pending)]);

    bundle.shipment_status = MsgStatus::Delivered;
    manager.update_bundle(&bundle);
    store(&mut bundle, &mut manager);
    assert_eq!(held(&manager), vec![(1, MsgStatus::Delivered)]);
}

#[test]
fn overdue_bundles_are_dropped() {
    let mut manager = BundleManager::new(9, "x".to_string());
    manager.save_bundle(&data(1, "a", "b", 100, 10));
    manager.save_bundle(&data(2, "a", "b", 100, 20));
    manager.save_bundle(&data(3, "a", "b", 100, 9));
    manager.save_bundle(&data(4, "a", "b", 200, 1000));
    manager.save_bundle(&data(5, "a", "b", 111, u64::MAX));
    manager.save_bundle(&data(6, "a", "b", 112, 0));
    drop_expired_bundles_at(&mut manager, at(111));
    let kept = vec![2, 4, 5, 6].into_iter().map(|id| (id, MsgStatus::Pending)).collect::<Vec<_>>();
    assert_eq!(held(&manager), kept);
    drop_expired_bundles_at(&mut manager, at(111));
    assert_eq!(manager.all().len(), 4);
    drop_expired_bundles(&mut manager);
    assert_eq!(held(&manager), vec![(5, MsgStatus::Pending)]);
}

#[test]
fn summary_vector_is_what_is_held() {
    let mut engine = engine_of("alice");
    engine.bundle_manager.save_bundle(&data(3, "a", "b", 0, 1));
    engine.bundle_manager.save_bundle(&data(1, "a", "b", 0, 1));
    let ids: Vec<u128> =
        engine.get_summary_vector(&engine.bundle_manager).iter().map(|b| b.id).collect();
    assert_eq!(ids, vec![3, 1]);
}
