use whatspace::network::client::registry_address;
use whatspace::routing::model::{Bundle, BundleKind, MsgStatus, Node};
use whatspace::time::Timestamp;

const ALICE: u128 = 0xc2ef90b9_02bc_5d53_93cd_92652b6e1b41;
const BOB: u128 = 0xef45d397_0411_5f5e_8940_9bdbdef3958b;

fn at(secs: i64, nanos: u32) -> Timestamp {
    Timestamp::new(secs, nanos).unwrap()
}

fn bundle_made_at(made: Timestamp, ttl: u64) -> Bundle {
    let alice = Node::new("alice", "127.0.0.1", 8080, vec![]);
    let bob = Node::new("bob", "127.0.0.1", 8081, vec![]);
    Bundle::assemble(1, made, alice, bob, BundleKind::Data { msg: "hi".to_string() }, ttl)
}

#[test]
fn node_id_is_hashed_from_its_name() {
    let alice = Node::new("alice", "127.0.0.1", 8080, vec![7, 9]);
    assert_eq!(alice.id, ALICE);
    assert_eq!(alice.name, "alice");
    assert_eq!(alice.address, "127.0.0.1");
    assert_eq!(alice.port, 8080);
    assert_eq!(alice.peers, vec![7, 9]);
    assert_eq!(Node::new("bob", "10.0.0.1", 1, vec![]).id, BOB);
}

#[test]
fn node_id_depends_on_the_name_alone() {
    let here = Node::new("carol", "127.0.0.1", 8082, vec![]);
    let there = Node::new("carol", "192.168.0.7", 9, vec![1]);
    assert_eq!(here.id, there.id);
    assert_eq!(here.id, 0x17f615a4_4544_5549_9039_7ff246bc88a2);
}

#[test]
fn node_takes_the_identifier_it_is_given() {
    let node = Node::assemble(5, "alice", "127.0.0.1", 8080, vec![1]);
    assert_eq!(node.id, 5);
    assert_eq!(node.name, "alice");
    assert_eq!(node.routing_engine.unwrap().node_id, 5);
}

#[test]
fn node_has_a_fresh_engine() {
    let alice = Node::new("alice", "127.0.0.1", 8080, vec![3]);
    let engine = alice.routing_engine.as_ref().unwrap();
    assert_eq!(engine.node_id, ALICE);
    assert_eq!(engine.peers, vec![3]);
    assert_eq!(engine.bundle_manager.name, "alice");
    assert_eq!(engine.bundle_manager.node_id, ALICE);
    assert_eq!(engine.bundle_manager.all().len(), 0);
    assert_eq!(engine.server.peer_registry.len(), 0);
    assert_eq!(engine.registry_addr, "127.0.0.1:9100");
    assert_eq!(engine.registry_addr, registry_address(None));
}

#[test]
fn detached_node_has_no_engine() {
    let alice = Node::new("alice", "127.0.0.1", 8080, vec![3]);
    let copy = alice.detached();
    assert!(copy.routing_engine.is_none());
    assert_eq!(copy.id, alice.id);
    assert_eq!(copy.name, alice.name);
    assert_eq!(copy.address, alice.address);
    assert_eq!(copy.port, alice.port);
    assert_eq!(copy.peers, alice.peers);
}

#[test]
fn new_bundle_is_pending_and_detached() {
    let alice = Node::new("alice", "127.0.0.1", 8080, vec![]);
    let bob = Node::new("bob", "127.0.0.1", 8081, vec![]);
    let kind = BundleKind::Data { msg: "hello".to_string() };
    let bundle = Bundle::new(alice, bob, kind, 3600);
    assert_eq!(bundle.source.id, ALICE);
    assert_eq!(bundle.destination.id, BOB);
    assert!(bundle.source.routing_engine.is_none());
    assert!(bundle.destination.routing_engine.is_none());
    assert_eq!(bundle.shipment_status, MsgStatus::Pending);
    assert_eq!(bundle.ttl, 3600);
    assert!(matches!(&bundle.kind, BundleKind::Data { msg } if msg == "hello"));
    assert_eq!((bundle.id >> 76) & 0xf, 4);
    assert_eq!((bundle.id >> 62) & 3, 2);
    assert!(bundle.timestamp.secs() > 1_700_000_000);
    assert!(!bundle.is_expired());
}

#[test]
fn new_bundles_have_identifiers_of_their_own() {
    let first = bundle_made_at(at(0, 0), 1);
    let make = || {
        let alice = Node::new("alice", "127.0.0.1", 8080, vec![]);
        let bob = Node::new("bob", "127.0.0.1", 8081, vec![]);
        Bundle::new(alice, bob, BundleKind::RequestSV { from: 1 }, 1)
    };
    assert_ne!(make().id, make().id);
    assert_ne!(make().id, first.source.id);
}

#[test]
fn bundle_expires_after_its_time_to_live() {
    let bundle = bundle_made_at(at(1000, 0), 60);
    assert!(!bundle.is_expired_at(at(1000, 0)));
    assert!(!bundle.is_expired_at(at(1060, 999_999_999)));
    assert!(bundle.is_expired_at(at(1061, 0)));
    assert!(bundle.is_expired_at(at(100_000, 0)));
    assert!(!bundle.is_expired_at(at(0, 0)));
}

#[test]
fn old_bundle_is_expired_now() {
    assert!(bundle_made_at(at(0, 0), 1).is_expired());
    assert!(!bundle_made_at(at(8_210_266_876_799, 0), 0).is_expired());
}

#[test]
fn huge_time_to_live_is_not_exceeded() {
    for ttl in [i64::MAX as u64, i64::MAX as u64 + 1, u64::MAX] {
        let bundle = bundle_made_at(at(1000, 0), ttl);
        assert!(!bundle.is_expired_at(at(1000, 0)));
        assert!(!bundle.is_expired_at(at(999, 0)));
        assert!(!bundle.is_expired_at(at(8_210_266_876_799, 0)));
    }
    let alice = Node::new("alice", "127.0.0.1", 8080, vec![]);
    let bob = Node::new("bob", "127.0.0.1", 8081, vec![]);
    let bundle = Bundle::new(alice, bob, BundleKind::Data { msg: "hi".to_string() }, u64::MAX);
    assert!(!bundle.is_expired());
}

#[test]
fn ack_goes_back() {
    let data = bundle_made_at(at(1000, 0), 77);
    let ack = Bundle::new_ack(&data);
    assert_eq!(ack.source.id, BOB);
    assert_eq!(ack.source.name, "bob");
    assert_eq!(ack.destination.id, ALICE);
    assert_eq!(ack.ttl, 77);
    assert_eq!(ack.shipment_status, MsgStatus::Pending);
    assert!(matches!(ack.kind, BundleKind::Ack { ack_bundle_id: 1 }));
    assert!(ack.source.routing_engine.is_none());
    assert_eq!((ack.id >> 76) & 0xf, 4);
    assert!(ack.timestamp.secs() > 1_700_000_000);
}

#[test]
fn ack_of_an_ack_travels_as_the_data() {
    let data = bundle_made_at(at(1000, 0), 5);
    let ack = Bundle::assemble_ack(&data, 2, at(1001, 0));
    let again = Bundle::assemble_ack(&ack, 3, at(1002, 0));
    assert_eq!(again.source.id, data.source.id);
    assert_eq!(again.destination.id, data.destination.id);
    assert_eq!(again.ttl, 5);
    assert!(matches!(again.kind, BundleKind::Ack { ack_bundle_id: 2 }));
    assert_eq!(again.id, 3);
    assert_eq!(again.timestamp, at(1002, 0));
}

#[test]
fn detached_bundle_is_a_copy() {
    let data = bundle_made_at(at(1000, 5), 5);
    let copy = data.detached();
    assert_eq!(copy.id, 1);
    assert_eq!(copy.timestamp, at(1000, 5));
    assert!(matches!(&copy.kind, BundleKind::Data { msg } if msg == "hi"));
    let sv = BundleKind::SummaryVector { ids: vec![1, 2] }.duplicate();
    assert!(matches!(sv, BundleKind::SummaryVector { ids } if ids == vec![1, 2]));
}
