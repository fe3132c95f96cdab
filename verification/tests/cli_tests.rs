use whatspace::cli::commands::{NodeCommands, PeerCommands};
use whatspace::cli::handler::{
    collect_ids, configure_engine, find_node, handle_command, handle_peer_command, other_connected_peers,
    stored_bundles, sync_peers, CommandOutcome, KnownNodes, NodeRuntime, PeerOutcome, StartState,
    StopOrders,
};
use whatspace::cli::shell::{interpret_line, interpret_words, startup, LineAction, Startup};
use whatspace::network::server::{ConnectionStatus, PeerRecord, ServerResponse};
use whatspace::routing::model::{BundleKind, MsgStatus, Node};

fn nodes() -> Vec<Node> {
    vec![
        Node::new("alice", "127.0.0.1", 8080, vec![]),
        Node::new("bob", "127.0.0.1", 8081, vec![1, 2]),
        Node::new("carol", "10.0.0.3", 8082, vec![]),
    ]
}

fn add(name: &str) -> PeerCommands {
    PeerCommands::Add { name: name.to_string() }
}

fn remove(name: &str) -> PeerCommands {
    PeerCommands::Remove { name: name.to_string() }
}

fn texts(words: &[&str]) -> Vec<String> {
    words.iter().map(|w| w.to_string()).collect()
}

#[test]
fn nodes_are_found_by_name() {
    let mut nodes = nodes();
    nodes.push(Node::new("bob", "10.0.0.9", 1, vec![]));
    assert_eq!(find_node(&nodes, "bob"), Some(1));
    assert_eq!(find_node(&nodes, "dave"), None);
    assert_eq!(find_node(&vec![], "bob"), None);
}

#[test]
fn last_node_with_a_name_is_the_known_one() {
    let mut nodes = nodes();
    nodes[0].name = "bob".to_string();
    let known = KnownNodes::of(&nodes);
    assert_eq!(known.get("bob"), Some(nodes[1].id));
    assert_eq!(known.get("alice"), None);
    assert_eq!(known.get("carol"), Some(nodes[2].id));
}

#[test]
fn all_nodes_are_listed() {
    let mut nodes = nodes();
    let mut runtime = NodeRuntime::new();
    runtime.started.insert(nodes[1].id);
    match handle_command(NodeCommands::All, &mut nodes, &mut runtime) {
        CommandOutcome::Nodes { lines } => {
            assert_eq!(lines.len(), 3);
            assert_eq!(lines[1].name, "bob");
            assert_eq!(lines[1].id, nodes[1].id);
            assert_eq!(lines[1].endpoint, "127.0.0.1:8081");
            assert_eq!(lines[1].peers, 2);
            assert!(lines[1].started);
            assert!(!lines[0].started);
            assert_eq!(lines[2].endpoint, "10.0.0.3:8082");
        }
        other => panic!("unexpected {:?}", other),
    }
    match handle_command(NodeCommands::All, &mut vec![], &mut runtime) {
        CommandOutcome::Nodes { lines } => assert_eq!(lines.len(), 0),
        other => panic!("unexpected {:?}", other),
    }
}

#[test]
fn start_is_planned() {
    let mut nodes = nodes();
    let command = NodeCommands::Start { name: "carol".to_string(), server: "r:9".to_string() };
    match handle_command(command, &mut nodes, &mut NodeRuntime::new()) {
        CommandOutcome::Start { place, bind_address, registration, server } => {
            assert_eq!(place, 2);
            assert_eq!(bind_address, "10.0.0.3:8082");
            assert_eq!(registration.name, "carol");
            assert!(registration.routing_engine.is_none());
            assert_eq!(server, "r:9");
        }
        other => panic!("unexpected {:?}", other),
    }
    assert!(nodes[2].routing_engine.is_some());
}

#[test]
fn start_goes_through_its_states() {
    let mut runtime = NodeRuntime::new();
    assert_eq!(runtime.start_node(7, StartState::Configure, false), StartState::Aborted);
    assert_eq!(runtime.start_node(7, StartState::Configure, true), StartState::Listen);
    assert_eq!(runtime.start_node(7, StartState::Listen, false), StartState::Aborted);
    assert!(!runtime.started.contains(&7));
    assert_eq!(runtime.start_node(7, StartState::Listen, true), StartState::Register);
    assert!(runtime.started.contains(&7));
    assert_eq!(runtime.start_node(7, StartState::Configure, true), StartState::Register);
    assert_eq!(runtime.start_node(7, StartState::Register, false), StartState::Unregistered);
    assert!(!runtime.registered.contains(&7));
    assert_eq!(runtime.start_node(7, StartState::Register, true), StartState::Started);
    assert!(runtime.registered.contains(&7));
    let all = StopOrders { was_registered: true, close_listener: true };
    let none = StopOrders { was_registered: false, close_listener: false };
    assert_eq!(runtime.stop_node(7), all);
    assert_eq!(runtime.stop_node(7), none);
    assert_eq!(runtime.start_node(7, StartState::Configure, true), StartState::Listen);
}

#[test]
fn stopping_says_what_is_to_be_ended() {
    let mut nodes = nodes();
    let mut runtime = NodeRuntime::new();
    let id = nodes[0].id;
    let mut stop = |runtime: &mut NodeRuntime| {
        let command = NodeCommands::Stop { name: "alice".to_string() };
        match handle_command(command, &mut nodes, runtime) {
            CommandOutcome::Stopped { place: 0, orders } => orders,
            other => panic!("unexpected {:?}", other),
        }
    };
    runtime.started.insert(id);
    runtime.registered.insert(id);
    runtime.started.insert(3);
    assert_eq!(stop(&mut runtime), StopOrders { was_registered: true, close_listener: true });
    assert_eq!(runtime.started.len(), 1);
    assert!(runtime.registered.is_empty());
    assert_eq!(stop(&mut runtime), StopOrders { was_registered: false, close_listener: false });
    runtime.started.insert(id);
    assert_eq!(stop(&mut runtime), StopOrders { was_registered: false, close_listener: true });
}

#[test]
fn stopped_node_is_started_again() {
    let mut nodes = nodes();
    let mut runtime = NodeRuntime::new();
    let id = nodes[0].id;
    for _ in 0..2 {
        let command = NodeCommands::Start { name: "alice".to_string(), server: "s:1".to_string() };
        let outcome = handle_command(command, &mut nodes, &mut runtime);
        assert!(matches!(outcome, CommandOutcome::Start { bind_address, .. } if bind_address == "127.0.0.1:8080"));
        assert_eq!(runtime.start_node(id, StartState::Configure, true), StartState::Listen);
        assert_eq!(runtime.start_node(id, StartState::Listen, true), StartState::Register);
        assert_eq!(runtime.start_node(id, StartState::Register, true), StartState::Started);
        assert!(runtime.started.contains(&id) && runtime.registered.contains(&id));
        let command = NodeCommands::Stop { name: "alice".to_string() };
        let outcome = handle_command(command, &mut nodes, &mut runtime);
        assert!(matches!(outcome, CommandOutcome::Stopped { orders, .. } if orders.close_listener));
        assert!(runtime.started.is_empty() && runtime.registered.is_empty());
    }
}

#[test]
fn status_is_reported() {
    let mut nodes = nodes();
    let mut runtime = NodeRuntime::new();
    runtime.registered.insert(nodes[1].id);
    let command = NodeCommands::Status { name: "bob".to_string() };
    match handle_command(command, &mut nodes, &mut runtime) {
        CommandOutcome::Status { place, report } => {
            assert_eq!(place, 1);
            assert_eq!(report.id, nodes[1].id);
            assert_eq!(report.name, "bob");
            assert_eq!(report.endpoint, "127.0.0.1:8081");
            assert_eq!(report.peers, 2);
            assert!(report.running);
        }
        other => panic!("unexpected {:?}", other),
    }
    assert_eq!(stored_bundles(None), 0);
    assert_eq!(stored_bundles(nodes[1].routing_engine.as_deref()), 0);
}

#[test]
fn message_becomes_a_bundle() {
    let mut nodes = nodes();
    let command = NodeCommands::Send {
        from: "alice".to_string(),
        to: "bob".to_string(),
        message: "Hello".to_string(),
        ttl: 3600,
    };
    match handle_command(command, &mut nodes, &mut NodeRuntime::new()) {
        CommandOutcome::Send { place, bundle } => {
            assert_eq!(place, 0);
            assert_eq!(bundle.source.id, nodes[0].id);
            assert_eq!(bundle.destination.id, nodes[1].id);
            assert_eq!(bundle.destination.peers, vec![1, 2]);
            assert!(matches!(&bundle.kind, BundleKind::Data { msg } if msg == "Hello"));
            assert_eq!(bundle.ttl, 3600);
            assert_eq!(bundle.shipment_status, MsgStatus::Pending);
            assert!(!bundle.is_expired());
        }
        other => panic!("unexpected {:?}", other),
    }
}

#[test]
fn unknown_names_are_reported() {
    let mut nodes = nodes();
    let mut runtime = NodeRuntime::new();
    let missing = |outcome: CommandOutcome| match outcome {
        CommandOutcome::NoSuchNode { name } => name,
        other => panic!("unexpected {:?}", other),
    };
    let send = |from: &str, to: &str| NodeCommands::Send {
        from: from.to_string(),
        to: to.to_string(),
        message: String::new(),
        ttl: 1,
    };
    assert_eq!(missing(handle_command(send("x", "y"), &mut nodes, &mut runtime)), "y");
    assert_eq!(missing(handle_command(send("x", "bob"), &mut nodes, &mut runtime)), "x");
    let stop = NodeCommands::Stop { name: "x".to_string() };
    assert_eq!(missing(handle_command(stop, &mut nodes, &mut runtime)), "x");
    let status = NodeCommands::Status { name: "x".to_string() };
    assert_eq!(missing(handle_command(status, &mut nodes, &mut runtime)), "x");
    let start = NodeCommands::Start { name: "x".to_string(), server: String::new() };
    assert_eq!(missing(handle_command(start, &mut nodes, &mut runtime)), "x");
    let peers = NodeCommands::Peers { name: "x".to_string(), command: PeerCommands::ListPeers };
    assert_eq!(missing(handle_command(peers, &mut nodes, &mut runtime)), "x");
}

#[test]
fn peers_are_added_and_removed() {
    let mut nodes = nodes();
    let mut runtime = NodeRuntime::new();
    let bob = nodes[1].id;
    let mut run = |command: PeerCommands| {
        let command = NodeCommands::Peers { name: "alice".to_string(), command };
        match handle_command(command, &mut nodes, &mut runtime) {
            CommandOutcome::Peers { place: 0, outcome } => (outcome, nodes[0].peers.clone()),
            other => panic!("unexpected {:?}", other),
        }
    };
    let (outcome, peers) = run(add("bob"));
    assert!(matches!(outcome, PeerOutcome::Added { name, id } if name == "bob" && id == bob));
    assert_eq!(peers, vec![bob]);
    let (outcome, peers) = run(add("bob"));
    assert!(matches!(outcome, PeerOutcome::AlreadyKnown { id } if id == bob));
    assert_eq!(peers, vec![bob]);
    let (outcome, _) = run(PeerCommands::ListPeers);
    assert!(matches!(outcome, PeerOutcome::Peers { ids } if ids == vec![bob]));
    let (outcome, peers) = run(remove("bob"));
    assert!(matches!(outcome, PeerOutcome::Removed { name, id } if name == "bob" && id == bob));
    assert_eq!(peers.len(), 0);
    let (outcome, _) = run(remove("bob"));
    assert!(matches!(outcome, PeerOutcome::NotKnown { name, id } if name == "bob" && id == bob));
    let (outcome, _) = run(add("dave"));
    assert!(matches!(outcome, PeerOutcome::NoSuchNode { name } if name == "dave"));
    let (outcome, _) = run(remove("dave"));
    assert!(matches!(outcome, PeerOutcome::NoSuchNode { name } if name == "dave"));
}

#[test]
fn every_occurrence_of_a_peer_is_removed() {
    let nodes = nodes();
    let known = KnownNodes::of(&nodes);
    let carol = nodes[2].id;
    let mut node = Node::new("alice", "127.0.0.1", 1, vec![carol, 5, carol]);
    let outcome = handle_peer_command(remove("carol"), &mut node, &known);
    assert!(matches!(outcome, PeerOutcome::Removed { .. }));
    assert_eq!(node.peers, vec![5]);
    assert!(node.routing_engine.is_some());
}

#[test]
fn identifiers_are_parsed() {
    let nodes = nodes();
    let known = KnownNodes::of(&nodes);
    let mut node = Node::new("alice", "127.0.0.1", 1, vec![]);
    let ids = texts(&[
        "c2ef90b9-02bc-5d53-93cd-92652b6e1b41",
        "ef45d39704115f5e89409bdbdef3958b",
        "{6ba7b810-9dad-11d1-80b4-00c04fd430c8}",
        "urn:uuid:00000000-0000-0000-0000-00000000000a",
    ]);
    let command = PeerCommands::GetConnectedPeers { ids };
    match handle_peer_command(command, &mut node, &known) {
        PeerOutcome::Query { ids } => {
            let expected = vec![nodes[0].id, nodes[1].id, 0x6ba7b810_9dad_11d1_80b4_00c04fd430c8, 10];
            assert_eq!(ids, expected);
        }
        other => panic!("unexpected {:?}", other),
    }
    let ids = texts(&["00000000-0000-0000-0000-00000000000a", "bob", "x"]);
    let command = PeerCommands::GetConnectedPeers { ids };
    let outcome = handle_peer_command(command, &mut node, &known);
    assert!(matches!(outcome, PeerOutcome::InvalidId { text } if text == "bob"));
}

#[test]
fn first_text_without_identifier_is_reported() {
    let both = texts(&["a", "b", "c"]);
    let outcome = collect_ids(&both, &vec![Some(1), None, None]);
    assert!(matches!(outcome, PeerOutcome::InvalidId { text } if text == "b"));
    let outcome = collect_ids(&both, &vec![Some(1), Some(2), Some(1)]);
    assert!(matches!(outcome, PeerOutcome::Query { ids } if ids == vec![1, 2, 1]));
}

#[test]
fn words_are_interpreted() {
    assert!(matches!(interpret_words(vec![]), LineAction::Skip));
    assert!(matches!(interpret_words(texts(&["hElP"])), LineAction::Help));
    assert!(matches!(interpret_words(texts(&["a b"])), LineAction::Run { argv } if argv.len() == 2));
}

#[test]
fn asking_node_is_left_out() {
    let record = |name: &str| PeerRecord {
        node: Node::new(name, "127.0.0.1", 1, vec![]).detached(),
        status: ConnectionStatus::Connected,
    };
    let me = record("alice").node.id;
    let reply = ServerResponse::Peers(vec![record("bob"), record("alice"), record("carol")]);
    let others = other_connected_peers(me, Some(reply));
    let names: Vec<&str> = others.iter().map(|r| r.node.name.as_str()).collect();
    assert_eq!(names, vec!["bob", "carol"]);
    assert_eq!(other_connected_peers(me, None).len(), 0);
    assert_eq!(other_connected_peers(me, Some(ServerResponse::Accepted)).len(), 0);
}

#[test]
fn engine_follows_its_node() {
    let node = Node::new("alice", "127.0.0.1", 1, vec![4, 5]);
    let mut engine = *Node::new("alice", "127.0.0.1", 1, vec![]).routing_engine.unwrap();
    sync_peers(&mut engine, &node);
    assert_eq!(engine.peers, vec![4, 5]);
    assert_eq!(engine.registry_addr, "127.0.0.1:9100");
    engine.peers.clear();
    configure_engine(&mut engine, &node, "10.1.1.1:9100");
    assert_eq!(engine.peers, vec![4, 5]);
    assert_eq!(engine.registry_addr, "10.1.1.1:9100");
}

#[test]
fn program_starts_as_its_arguments_say() {
    assert_eq!(startup(&texts(&["ws"])), Startup::Interactive);
    assert_eq!(startup(&texts(&[])), Startup::Interactive);
    assert_eq!(startup(&texts(&["ws", "serve"])), Startup::Serve);
    assert_eq!(startup(&texts(&["ws", "serve", "x"])), Startup::Serve);
    assert_eq!(startup(&texts(&["ws", "all"])), Startup::OneShot);
    assert_eq!(startup(&texts(&["ws", "SERVE"])), Startup::OneShot);
}

#[test]
fn lines_are_interpreted() {
    assert!(matches!(interpret_line("  \n"), LineAction::Skip));
    assert!(matches!(interpret_line(" Exit \n"), LineAction::Exit));
    assert!(matches!(interpret_line("QUIT"), LineAction::Exit));
    assert!(matches!(interpret_line("help\r\n"), LineAction::Help));
    match interpret_line("status  alice\n") {
        LineAction::Run { argv } => assert_eq!(argv, vec!["WhatSpace", "status", "alice"]),
        other => panic!("unexpected {:?}", other),
    }
    match interpret_line("exit now") {
        LineAction::Run { argv } => assert_eq!(argv, vec!["WhatSpace", "exit", "now"]),
        other => panic!("unexpected {:?}", other),
    }
}
