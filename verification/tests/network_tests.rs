use whatspace::network::client::{
    ack_bytes, connect_to_server, connect_with_retry, default_registry_addr, frame, frame_header,
    handle_peer_to_peer, payload_len, peers_request, receive_bundle, registration_request, registry_address, request_peer_sv,
    respond_peer_sv, send_bundle, start_connecting, sv_request, was_written, ConnectStep, PeerEvent, PeerExchange,
    PeerState, ReceiveEvent, ReceiveState, RegistrationStage, SendStage, SummaryError,
    CONNECT_ATTEMPTS, RETRY_DELAY_SECS,
};
use whatspace::network::server::{
    verify_unique_name, ClientAction, ClientEvent, ClientSession, ConnectionStatus, PeerRecord, Server,
    ServerRequest, ServerResponse,
};
use whatspace::routing::engine::RoutingEngine;
use whatspace::routing::model::{Bundle, BundleKind, Node};
use whatspace::time::Timestamp;

fn node(name: &str, port: u16) -> Node {
    Node::new(name, "127.0.0.1", port, vec![]).detached()
}

fn data(id: u128) -> Bundle {
    let made = Timestamp::new(0, 0).unwrap();
    let kind = BundleKind::Data { msg: "m".to_string() };
    Bundle::assemble(id, made, node("a", 1), node("b", 2), kind, 10)
}

fn register(server: &mut Server, session: &mut ClientSession, node: Node) {
    let action = server.handle_client(session, ClientEvent::Request(ServerRequest::Register(node)));
    assert!(matches!(action, ClientAction::Reply(ServerResponse::Accepted)));
}

fn names(records: &[PeerRecord]) -> Vec<String> {
    records.iter().map(|r| r.node.name.clone()).collect()
}

#[test]
fn registered_nodes_are_connected() {
    let mut server = Server::new();
    let mut session = ClientSession::new();
    register(&mut server, &mut session, node("alice", 1));
    assert_eq!(session.node_id, Some(node("alice", 1).id));
    register(&mut server, &mut ClientSession::new(), node("bob", 2));
    assert_eq!(names(&server.get_connected_peers(&[])), vec!["alice", "bob"]);
    assert_eq!(names(&server.get_connected_peers(&[node("bob", 2).id, 5])), vec!["bob"]);
    assert_eq!(server.get_connected_peers(&[5]).len(), 0);
}

#[test]
fn registering_again_refreshes_the_record() {
    let mut server = Server::new();
    let mut session = ClientSession::new();
    register(&mut server, &mut session, node("alice", 1));
    register(&mut server, &mut session, node("bob", 2));
    register(&mut server, &mut session, node("alice", 77));
    assert_eq!(server.peer_registry.len(), 2);
    assert_eq!(server.peer_registry[0].node.port, 77);
    assert_eq!(session.node_id, Some(node("alice", 1).id));
}

#[test]
fn closed_connection_disconnects_its_node() {
    let mut server = Server::new();
    let mut first = ClientSession::new();
    let mut second = ClientSession::new();
    register(&mut server, &mut first, node("alice", 1));
    register(&mut server, &mut second, node("bob", 2));
    let action = server.handle_client(&mut first, ClientEvent::Closed);
    assert!(matches!(action, ClientAction::Close));
    assert_eq!(names(&server.get_connected_peers(&[])), vec!["bob"]);
    assert_eq!(server.peer_registry.len(), 2);
    assert_eq!(server.peer_registry[0].status, ConnectionStatus::Disconnected);
    register(&mut server, &mut first, node("alice", 1));
    assert_eq!(names(&server.get_connected_peers(&[])), vec!["alice", "bob"]);
}

#[test]
fn closing_without_registration_changes_nothing() {
    let mut server = Server::new();
    register(&mut server, &mut ClientSession::new(), node("alice", 1));
    server.handle_client(&mut ClientSession::new(), ClientEvent::Closed);
    assert_eq!(server.get_connected_peers(&[]).len(), 1);
}

#[test]
fn questions_are_answered_with_connected_nodes() {
    let mut server = Server::new();
    let mut session = ClientSession::new();
    register(&mut server, &mut session, node("alice", 1));
    let question = ClientEvent::Request(ServerRequest::GetConnectedPeers(vec![]));
    match server.handle_client(&mut session, question) {
        ClientAction::Reply(ServerResponse::Peers(records)) => {
            assert_eq!(names(&records), vec!["alice"]);
        }
        other => panic!("unexpected {:?}", other),
    }
}

#[test]
fn engine_learns_of_the_nodes_that_are_connected() {
    let mut server = Server::new();
    register(&mut server, &mut ClientSession::new(), node("alice", 1));
    let mut gone = ClientSession::new();
    register(&mut server, &mut gone, node("bob", 2));
    server.handle_client(&mut gone, ClientEvent::Closed);

    let engine = *Node::new("carol", "127.0.0.1", 3, vec![]).routing_engine.unwrap();
    assert_eq!(engine.registry_addr, registry_address(None));
    let question = ClientEvent::Request(engine.registry_question());
    match server.handle_client(&mut ClientSession::new(), question) {
        ClientAction::Reply(reply) => {
            assert_eq!(names(&engine.query_registry_peers(Some(reply))), vec!["alice"]);
        }
        other => panic!("unexpected {:?}", other),
    }
}

#[test]
fn requests_hold_what_they_are_made_of() {
    let alice = Node::new("alice", "10.0.0.7", 71, vec![4]).detached();
    match registration_request(alice) {
        ServerRequest::Register(node) => {
            assert_eq!(node.name, "alice");
            assert_eq!((node.address.as_str(), node.port), ("10.0.0.7", 71));
            assert_eq!(node.peers, vec![4]);
            assert!(node.routing_engine.is_none());
        }
        other => panic!("unexpected {:?}", other),
    }
    assert!(matches!(peers_request(vec![3, 1]), ServerRequest::GetConnectedPeers(ids) if ids == vec![3, 1]));
}

#[test]
fn registry_keeps_no_engine() {
    let mut server = Server::new();
    for port in [1, 2] {
        let alice = Node::new("alice", "127.0.0.1", port, vec![]);
        assert!(alice.routing_engine.is_some());
        let request = ClientEvent::Request(registration_request(alice));
        server.handle_client(&mut ClientSession::new(), request);
        assert_eq!(server.peer_registry.len(), 1);
        assert_eq!(server.peer_registry[0].node.port, port);
        assert!(server.peer_registry[0].node.routing_engine.is_none());
    }
}

#[test]
fn invalid_request_is_answered_with_the_reason() {
    let mut server = Server::new();
    let event = ClientEvent::Invalid("expected value".to_string());
    match server.handle_client(&mut ClientSession::new(), event) {
        ClientAction::Reply(ServerResponse::Error(text)) => {
            assert_eq!(text, "Invalid request JSON: expected value");
        }
        other => panic!("unexpected {:?}", other),
    }
}

#[test]
fn poisoned_registry_is_reported() {
    let mut session = ClientSession::new();
    let request = ClientEvent::Request(ServerRequest::Register(node("alice", 1)));
    match session.handle_poisoned(request) {
        ClientAction::Reply(ServerResponse::Error(text)) => {
            assert_eq!(text, "Registry lock poisoned");
        }
        other => panic!("unexpected {:?}", other),
    }
    assert_eq!(session.node_id, Some(node("alice", 1).id));
    let question = ClientEvent::Request(ServerRequest::GetConnectedPeers(vec![1]));
    match session.handle_poisoned(question) {
        ClientAction::Reply(ServerResponse::Peers(records)) => assert_eq!(records.len(), 0),
        other => panic!("unexpected {:?}", other),
    }
    match session.handle_poisoned(ClientEvent::Invalid("x".to_string())) {
        ClientAction::Reply(ServerResponse::Error(text)) => {
            assert_eq!(text, "Invalid request JSON: x");
        }
        other => panic!("unexpected {:?}", other),
    }
    assert!(matches!(session.handle_poisoned(ClientEvent::Closed), ClientAction::Close));
}

#[test]
fn shutdown_disconnects_every_node() {
    let mut server = Server::new();
    register(&mut server, &mut ClientSession::new(), node("alice", 1));
    register(&mut server, &mut ClientSession::new(), node("bob", 2));
    server.disconnect_server();
    assert_eq!(server.get_connected_peers(&[]).len(), 0);
    assert_eq!(server.peer_registry.len(), 2);
}

#[test]
fn single_nodes_are_marked_disconnected() {
    let mut server = Server::new();
    server.register(node("alice", 1));
    assert!(server.mark_disconnected(node("alice", 1).id));
    assert!(!server.mark_disconnected(3));
    assert_eq!(server.get_connected_peers(&[]).len(), 0);
}

#[test]
fn names_are_unique_until_taken() {
    let mut server = Server::new();
    assert!(verify_unique_name(Some(&server.peer_registry), "alice"));
    register(&mut server, &mut ClientSession::new(), node("alice", 1));
    assert!(!verify_unique_name(Some(&server.peer_registry), "alice"));
    assert!(verify_unique_name(Some(&server.peer_registry), "Alice"));
    assert!(!verify_unique_name(None, "bob"));
}

#[test]
fn default_registry_is_used_unless_named() {
    assert_eq!(default_registry_addr(), "127.0.0.1:9100");
    assert_eq!(registry_address(None), "127.0.0.1:9100");
    assert_eq!(registry_address(Some("10.0.0.1:1")), "10.0.0.1:1");
}

#[test]
fn connection_is_tried_three_times() {
    let next = |step, ok| connect_with_retry(step, CONNECT_ATTEMPTS, RETRY_DELAY_SECS, ok);
    let first = start_connecting(CONNECT_ATTEMPTS);
    assert_eq!(first, ConnectStep::Try { attempt: 1, delay_secs: 0 });
    let second = next(first, false);
    assert_eq!(second, ConnectStep::Try { attempt: 2, delay_secs: 1 });
    let third = next(second, false);
    assert_eq!(third, ConnectStep::Try { attempt: 3, delay_secs: 1 });
    assert_eq!(next(third, false), ConnectStep::Exhausted);
    assert_eq!(next(second, true), ConnectStep::Connected);
    assert_eq!(next(ConnectStep::Exhausted, true), ConnectStep::Exhausted);
    assert_eq!(start_connecting(0), ConnectStep::Exhausted);
}

#[test]
fn registration_needs_connection_encoding_and_sending() {
    let run = |oks: [bool; 4]| {
        oks.into_iter().fold(RegistrationStage::Connecting, connect_to_server)
    };
    assert_eq!(run([true, true, true, true]), RegistrationStage::Registered);
    assert_eq!(run([true, true, true, false]), RegistrationStage::Registered);
    assert_eq!(run([false, true, true, true]), RegistrationStage::Failed);
    assert_eq!(run([true, false, true, true]), RegistrationStage::Failed);
    assert_eq!(run([true, true, false, true]), RegistrationStage::Failed);
}

#[test]
fn sending_goes_through_its_stages() {
    let run = |oks: &[bool]| oks.iter().fold(SendStage::Encoding, |s, ok| send_bundle(s, *ok));
    assert_eq!(run(&[true]), SendStage::Connecting);
    assert_eq!(run(&[true, true]), SendStage::Writing);
    assert_eq!(run(&[true, true, true]), SendStage::AwaitingAck);
    assert_eq!(run(&[true, true, true, true]), SendStage::Acknowledged);
    assert_eq!(run(&[true, true, true, false]), SendStage::Unacknowledged);
    assert_eq!(run(&[false, true, true, true]), SendStage::Aborted);
    assert_eq!(run(&[true, false, true, true]), SendStage::Aborted);
    assert_eq!(run(&[true, true, false, true]), SendStage::Aborted);
    assert!(was_written(run(&[true, true, true, true])));
    assert!(was_written(run(&[true, true, true, false])));
    assert!(was_written(run(&[true, true, true])));
    assert!(!was_written(run(&[true, true])));
    assert!(!was_written(run(&[true, true, false, true])));
    assert!(!was_written(run(&[true, false])));
    assert!(!was_written(run(&[])));
}

#[test]
fn frames_carry_their_length() {
    assert_eq!(frame_header(0x01020304), [1, 2, 3, 4]);
    assert_eq!(payload_len([1, 2, 3, 4]), 0x01020304);
    assert_eq!(payload_len([255, 255, 255, 255]), u32::MAX as usize);
    assert_eq!(frame(b"abc"), vec![0, 0, 0, 3, b'a', b'b', b'c']);
    assert_eq!(frame(&[]), vec![0, 0, 0, 0]);
    assert_eq!(&ack_bytes(), b"ACK!");
}

#[test]
fn frames_follow_one_another() {
    let mut stream = frame(b"first");
    stream.extend(frame(b""));
    stream.extend(frame(b"last"));
    let mut found: Vec<Vec<u8>> = vec![];
    let mut at = 0;
    while at < stream.len() {
        let header = [stream[at], stream[at + 1], stream[at + 2], stream[at + 3]];
        let end = at + 4 + payload_len(header);
        found.push(stream[at + 4..end].to_vec());
        at = end;
    }
    assert_eq!(found, vec![b"first".to_vec(), vec![], b"last".to_vec()]);
}

#[test]
fn headers_are_big_endian_and_cut() {
    for len in [0usize, 1, 255, 256, 65_535, 65_536, 4_294_967_295, 4_294_967_296, 4_294_967_299] {
        assert_eq!(frame_header(len), (len as u32).to_be_bytes());
        assert_eq!(payload_len(frame_header(len)), len as u32 as usize);
    }
}

#[test]
fn bundle_is_received() {
    let state = receive_bundle(ReceiveState::Header, ReceiveEvent::Header { bytes: [0, 0, 0, 9] });
    assert!(matches!(state, ReceiveState::Payload { len: 9 }));
    let state = receive_bundle(state, ReceiveEvent::Payload { bundle: Some(data(4)) });
    assert!(matches!(&state, ReceiveState::Acknowledge { bundle } if bundle.id == 4));
    let state = receive_bundle(state, ReceiveEvent::AckWritten { succeeded: false });
    assert!(matches!(&state, ReceiveState::Received { bundle } if bundle.id == 4));
}

#[test]
fn broken_receipt_fails() {
    let state = receive_bundle(ReceiveState::Header, ReceiveEvent::ReadFailed);
    assert!(matches!(state, ReceiveState::Failed));
    let state = receive_bundle(ReceiveState::Payload { len: 1 }, ReceiveEvent::ReadFailed);
    assert!(matches!(state, ReceiveState::Failed));
    let state = receive_bundle(ReceiveState::Payload { len: 1 }, ReceiveEvent::Payload { bundle: None });
    assert!(matches!(state, ReceiveState::Failed));
    let state = receive_bundle(ReceiveState::Header, ReceiveEvent::AckWritten { succeeded: true });
    assert!(matches!(state, ReceiveState::Header));
}

#[test]
fn summary_is_requested() {
    assert!(matches!(sv_request(8), BundleKind::RequestSV { from: 8 }));
    let reply = PeerExchange::Reply { message: BundleKind::SummaryVector { ids: vec![1, 2] } };
    assert_eq!(request_peer_sv("x:1", reply).unwrap(), vec![1, 2]);
    let unreachable = request_peer_sv("x:1", PeerExchange::Unreachable).unwrap_err();
    assert!(matches!(&unreachable, SummaryError::Unreachable { destination } if destination == "x:1"));
    assert_eq!(unreachable.message(), "could not reach peer x:1");
    let broken = request_peer_sv("x:1", PeerExchange::Broken { reason: "eof".to_string() });
    assert_eq!(broken.unwrap_err().message(), "eof");
    let other = PeerExchange::Reply { message: BundleKind::RequestSV { from: 1 } };
    let wrong = request_peer_sv("x:1", other).unwrap_err();
    assert!(matches!(wrong, SummaryError::UnexpectedReply));
    assert_eq!(wrong.message(), "unexpected response from peer");
}

fn engine_with(ids: &[u128]) -> RoutingEngine {
    let mut engine = *Node::new("alice", "127.0.0.1", 1, vec![]).routing_engine.unwrap();
    for id in ids {
        engine.bundle_manager.save_bundle(&data(*id));
    }
    engine
}

#[test]
fn summary_requests_are_answered() {
    let engine = engine_with(&[5, 3]);
    let answer = respond_peer_sv(&engine, &sv_request(1));
    assert!(matches!(answer, Some(BundleKind::SummaryVector { ids }) if ids == vec![5, 3]));
    assert!(respond_peer_sv(&engine, &BundleKind::Ack { ack_bundle_id: 1 }).is_none());
    assert!(respond_peer_sv(&engine, &BundleKind::Data { msg: String::new() }).is_none());
    assert!(respond_peer_sv(&engine, &BundleKind::SummaryVector { ids: vec![] }).is_none());
}

#[test]
fn exchange_sends_only_what_is_missing() {
    let here = engine_with(&[1, 2, 3]);
    let there = engine_with(&[2]);
    let message = respond_peer_sv(&there, &sv_request(here.node_id)).unwrap();
    let ids = request_peer_sv("x:1", PeerExchange::Reply { message }).unwrap();
    let local = here.get_summary_vector(&here.bundle_manager);
    let missing: Vec<u128> = here.anti_entropy(&local, &ids).iter().map(|b| b.id).collect();
    assert_eq!(missing, vec![1, 3]);
}

#[test]
fn peer_bundle_is_acknowledged_before_it_is_routed() {
    let engine = engine_with(&[]);
    let go = |state, event| handle_peer_to_peer(&engine, state, event);
    let state = go(PeerState::Header, PeerEvent::Header { bytes: [0, 0, 1, 0] });
    assert!(matches!(state, PeerState::Payload { len: 256 }));
    let state = go(state, PeerEvent::Payload { control: None, bundle: Some(data(6)) });
    assert!(matches!(&state, PeerState::Acknowledge { bundle } if bundle.id == 6));
    let state = go(state, PeerEvent::Done);
    assert!(matches!(&state, PeerState::Acknowledge { .. }));
    let state = go(state, PeerEvent::AckWritten { succeeded: true });
    assert!(matches!(&state, PeerState::Prepare { bundle } if bundle.id == 6));
    let state = go(state, PeerEvent::Prepared { succeeded: true });
    assert!(matches!(&state, PeerState::Route { bundle } if bundle.id == 6));
    assert!(matches!(go(state, PeerEvent::Done), PeerState::Header));
}

#[test]
fn peer_conversation_ends_on_failures() {
    let engine = engine_with(&[]);
    let go = |state, event| handle_peer_to_peer(&engine, state, event);
    assert!(matches!(go(PeerState::Header, PeerEvent::ReadFailed), PeerState::Closed));
    assert!(matches!(go(PeerState::Payload { len: 1 }, PeerEvent::ReadFailed), PeerState::Closed));
    let state = go(PeerState::Acknowledge { bundle: data(1) }, PeerEvent::AckWritten { succeeded: false });
    assert!(matches!(state, PeerState::Closed));
    let state = go(PeerState::Prepare { bundle: data(1) }, PeerEvent::Prepared { succeeded: false });
    assert!(matches!(state, PeerState::Closed));
    assert!(matches!(go(PeerState::Closed, PeerEvent::Done), PeerState::Closed));
}

#[test]
fn peer_messages_are_answered_or_skipped() {
    let engine = engine_with(&[9]);
    let go = |state, event| handle_peer_to_peer(&engine, state, event);
    let request = PeerEvent::Payload { control: Some(sv_request(1)), bundle: None };
    let state = go(PeerState::Payload { len: 1 }, request);
    assert!(matches!(&state, PeerState::Reply { message: BundleKind::SummaryVector { ids } } if *ids == vec![9]));
    assert!(matches!(go(state, PeerEvent::Done), PeerState::Header));
    let other = BundleKind::SummaryVector { ids: vec![] };
    let state = go(PeerState::Payload { len: 1 }, PeerEvent::Payload { control: Some(other), bundle: None });
    assert!(matches!(state, PeerState::Header));
    let state = go(PeerState::Payload { len: 1 }, PeerEvent::Payload { control: None, bundle: None });
    assert!(matches!(state, PeerState::Header));
}
