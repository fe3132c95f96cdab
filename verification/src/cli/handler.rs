//! What each command does.

use std::collections::HashSet;

use vstd::prelude::*;

use crate::cli::commands::{NodeCommands, PeerCommands};
use crate::ident::{contains_id, is_random_id, parse_str, parsed_id, Id};
use crate::network::server::{record_views, PeerRecord, PeerRecordView, ServerResponse};
use crate::routing::engine::{known_peers, RoutingEngine};
use crate::routing::model::{copy_ids, fresh_bundle, Bundle, BundleKind, BundleKindView, Node, NodeView};
use crate::text::{endpoint, endpoint_text, same_text, text_views};
use crate::time::is_clock_reading;

verus! {

broadcast use vstd::std_specs::hash::group_hash_axioms;

/// Which nodes of this process are running.
#[derive(Debug)]
pub struct NodeRuntime {
    /// The nodes that listen for peers.
    pub started: HashSet<Id>,
    /// The nodes that have a connection to a registry.
    pub registered: HashSet<Id>,
}

/// The contents of a list of nodes.
pub open spec fn node_views(nodes: Seq<Node>) -> Seq<NodeView> {
    nodes.map_values(|node: Node| node@)
}

/// The place of the first node with a name.
pub open spec fn first_named(nodes: Seq<NodeView>, name: Seq<char>) -> Option<int>
    decreases nodes.len(),
{
    if nodes.len() == 0 {
        None
    } else {
        match first_named(nodes.drop_last(), name) {
            Some(i) => Some(i),
            None => if nodes.last().name == name {
                Some(nodes.len() - 1)
            } else {
                None
            },
        }
    }
}

/// Which identifier each name stands for: that of the last node with the name.
pub open spec fn known_nodes(nodes: Seq<NodeView>) -> Map<Seq<char>, Id>
    decreases nodes.len(),
{
    if nodes.len() == 0 {
        Map::empty()
    } else {
        known_nodes(nodes.drop_last()).insert(nodes.last().name, nodes.last().id)
    }
}

/// Finds the first node with a name.
pub fn find_node(nodes: &Vec<Node>, name: &str) -> (place: Option<usize>)
    ensures
        first_named(node_views(nodes@), name@) == (match place {
            Some(i) => Some(i as int),
            None => None,
        }),
        place matches Some(i) ==> i < nodes@.len() && nodes@[i as int].name@ == name@,
{
    let ghost views = node_views(nodes@);
    let mut i: usize = 0;
    while i < nodes.len()
        invariant
            i <= nodes@.len(),
            views == node_views(nodes@),
            first_named(views.take(i as int), name@) is None,
        decreases nodes@.len() - i,
    {
        assert(views.take(i + 1).drop_last() =~= views.take(i as int));
        if same_text(nodes[i].name.as_str(), name) {
            proof {
                first_named_stays(views.take(i + 1), views, name@);
            }
            return Some(i);
        }
        i += 1;
    }
    assert(views.take(i as int) =~= views);
    None
}

/// A node found among the first nodes is found among all of them.
proof fn first_named_stays(part: Seq<NodeView>, nodes: Seq<NodeView>, name: Seq<char>)
    requires
        part.len() <= nodes.len(),
        part == nodes.take(part.len() as int),
        first_named(part, name) is Some,
    ensures
        first_named(nodes, name) == first_named(part, name),
    decreases nodes.len(),
{
    if part.len() < nodes.len() {
        assert(nodes.drop_last().take(part.len() as int) =~= part);
        first_named_stays(part, nodes.drop_last(), name);
    } else {
        assert(part =~= nodes);
    }
}

/// A name and the identifier of a node that has it.
#[derive(Debug)]
pub struct KnownNode {
    pub name: String,
    pub id: Id,
}

/// Which identifier each name stands for.
#[derive(Debug)]
pub struct KnownNodes {
    entries: Vec<KnownNode>,
}

/// What a list of entries maps: a later one replaces an earlier one.
spec fn entries_map(entries: Seq<KnownNode>) -> Map<Seq<char>, Id>
    decreases entries.len(),
{
    if entries.len() == 0 {
        Map::empty()
    } else {
        entries_map(entries.drop_last()).insert(entries.last().name@, entries.last().id)
    }
}

impl View for KnownNodes {
    type V = Map<Seq<char>, Id>;

    closed spec fn view(&self) -> Map<Seq<char>, Id> {
        entries_map(self.entries@)
    }
}

impl KnownNodes {
    /// The names of some nodes and what they stand for.
    pub fn of(nodes: &Vec<Node>) -> (known: KnownNodes)
        ensures
            known@ == known_nodes(node_views(nodes@)),
    {
        let ghost views = node_views(nodes@);
        let mut entries: Vec<KnownNode> = Vec::new();
        let mut i: usize = 0;
        while i < nodes.len()
            invariant
                i <= nodes@.len(),
                views == node_views(nodes@),
                entries_map(entries@) == known_nodes(views.take(i as int)),
            decreases nodes@.len() - i,
        {
            let ghost before = entries@;
            entries.push(KnownNode { name: nodes[i].name.clone(), id: nodes[i].id });
            assert(entries@.drop_last() =~= before);
            assert(views.take(i + 1).drop_last() =~= views.take(i as int));
            i += 1;
        }
        assert(views.take(i as int) =~= views);
        KnownNodes { entries }
    }

    /// The identifier that a name stands for.
    pub fn get(&self, name: &str) -> (id: Option<Id>)
        ensures
            id is Some <==> self@.contains_key(name@),
            id matches Some(known) ==> known == self@[name@],
    {
        let ghost all = self.entries@;
        let mut i: usize = self.entries.len();
        assert(all.take(i as int) =~= all);
        while i > 0
            invariant
                i <= self.entries@.len(),
                all == self.entries@,
                entries_map(all.take(i as int)).contains_key(name@) <==> entries_map(
                    all,
                ).contains_key(name@),
                entries_map(all.take(i as int)).contains_key(name@) ==> entries_map(
                    all.take(i as int),
                )[name@] == entries_map(all)[name@],
            decreases i,
        {
            assert(all.take(i as int).drop_last() =~= all.take(i - 1));
            i -= 1;
            if same_text(self.entries[i].name.as_str(), name) {
                return Some(self.entries[i].id);
            }
        }
        None
    }
}

/// One node in the list of all nodes.
#[derive(Debug)]
pub struct NodeLine {
    pub name: String,
    pub id: Id,
    pub endpoint: String,
    pub peers: usize,
    pub started: bool,
}

/// The line for a node.
pub open spec fn is_line_of(line: NodeLine, node: NodeView, started: Set<Id>) -> bool {
    &&& line.name@ == node.name
    &&& line.id == node.id
    &&& line.endpoint@ == endpoint_text(node.address, node.port)
    &&& line.peers == node.peers.len()
    &&& line.started == started.contains(node.id)
}

/// What is reported of one node.
#[derive(Debug)]
pub struct StatusReport {
    pub id: Id,
    pub name: String,
    pub endpoint: String,
    pub peers: usize,
    pub running: bool,
}

/// The report on a node.
pub open spec fn is_report_of(report: StatusReport, node: NodeView, registered: Set<Id>) -> bool {
    &&& report.id == node.id
    &&& report.name@ == node.name
    &&& report.endpoint@ == endpoint_text(node.address, node.port)
    &&& report.peers == node.peers.len()
    &&& report.running == registered.contains(node.id)
}

/// What a command on the peers of a node comes to.
#[derive(Debug)]
pub enum PeerOutcome {
    /// The node knows these peers.
    Peers { ids: Vec<Id> },
    /// The registry is to be asked which of these nodes are connected.
    Query { ids: Vec<Id> },
    /// This text is no identifier.
    InvalidId { text: String },
    /// There is no node with this name.
    NoSuchNode { name: String },
    /// The node knew the peer already.
    AlreadyKnown { id: Id },
    /// The peer was added.
    Added { name: String, id: Id },
    /// The peer was removed.
    Removed { name: String, id: Id },
    /// The node does not know the peer.
    NotKnown { name: String, id: Id },
}

/// The contents of a `PeerOutcome`.
#[verifier::ext_equal]
pub enum PeerOutcomeView {
    Peers { ids: Seq<Id> },
    Query { ids: Seq<Id> },
    InvalidId { text: Seq<char> },
    NoSuchNode { name: Seq<char> },
    AlreadyKnown { id: Id },
    Added { name: Seq<char>, id: Id },
    Removed { name: Seq<char>, id: Id },
    NotKnown { name: Seq<char>, id: Id },
}

impl View for PeerOutcome {
    type V = PeerOutcomeView;

    open spec fn view(&self) -> PeerOutcomeView {
        match self {
            PeerOutcome::Peers { ids } => PeerOutcomeView::Peers { ids: ids@ },
            PeerOutcome::Query { ids } => PeerOutcomeView::Query { ids: ids@ },
            PeerOutcome::InvalidId { text } => PeerOutcomeView::InvalidId { text: text@ },
            PeerOutcome::NoSuchNode { name } => PeerOutcomeView::NoSuchNode { name: name@ },
            PeerOutcome::AlreadyKnown { id } => PeerOutcomeView::AlreadyKnown { id: *id },
            PeerOutcome::Added { name, id } => PeerOutcomeView::Added { name: name@, id: *id },
            PeerOutcome::Removed { name, id } => PeerOutcomeView::Removed { name: name@, id: *id },
            PeerOutcome::NotKnown { name, id } => PeerOutcomeView::NotKnown { name: name@, id: *id },
        }
    }
}

/// What the `uuid` crate reads in each of some texts.
pub open spec fn parsed_ids(texts: Seq<Seq<char>>) -> Seq<Option<Id>> {
    texts.map_values(|text: Seq<char>| parsed_id(text))
}

/// What a list of texts comes to, given what was read in each: the identifiers, or
/// the first text that holds none.
pub open spec fn ids_or_invalid(texts: Seq<Seq<char>>, parsed: Seq<Option<Id>>) -> PeerOutcomeView
    decreases texts.len(),
{
    if texts.len() == 0 {
        PeerOutcomeView::Query { ids: Seq::empty() }
    } else {
        match ids_or_invalid(texts.drop_last(), parsed) {
            PeerOutcomeView::Query { ids } => match parsed[texts.len() - 1] {
                Some(id) => PeerOutcomeView::Query { ids: ids.push(id) },
                None => PeerOutcomeView::InvalidId { text: texts.last() },
            },
            invalid => invalid,
        }
    }
}

/// The test that every identifier but one passes.
pub open spec fn is_other_than(id: Id) -> spec_fn(Id) -> bool {
    |peer: Id| peer != id
}

/// The peers without one of them.
pub open spec fn without_peer(peers: Seq<Id>, id: Id) -> Seq<Id> {
    peers.filter(is_other_than(id))
}

/// The peers of a node after a command.
pub open spec fn peers_after(
    peers: Seq<Id>,
    command: PeerCommands,
    known: Map<Seq<char>, Id>,
) -> Seq<Id> {
    match command {
        PeerCommands::Add { name } => {
            if known.contains_key(name@) && !peers.contains(known[name@]) {
                peers.push(known[name@])
            } else {
                peers
            }
        },
        PeerCommands::Remove { name } => {
            if known.contains_key(name@) {
                without_peer(peers, known[name@])
            } else {
                peers
            }
        },
        _ => peers,
    }
}

/// What a command on the peers of a node comes to.
pub open spec fn peer_outcome(
    peers: Seq<Id>,
    command: PeerCommands,
    known: Map<Seq<char>, Id>,
) -> PeerOutcomeView {
    match command {
        PeerCommands::ListPeers => PeerOutcomeView::Peers { ids: peers },
        PeerCommands::GetConnectedPeers { ids } => ids_or_invalid(
            text_views(ids@),
            parsed_ids(text_views(ids@)),
        ),
        PeerCommands::Add { name } => {
            if !known.contains_key(name@) {
                PeerOutcomeView::NoSuchNode { name: name@ }
            } else if peers.contains(known[name@]) {
                PeerOutcomeView::AlreadyKnown { id: known[name@] }
            } else {
                PeerOutcomeView::Added { name: name@, id: known[name@] }
            }
        },
        PeerCommands::Remove { name } => {
            if !known.contains_key(name@) {
                PeerOutcomeView::NoSuchNode { name: name@ }
            } else if peers.contains(known[name@]) {
                PeerOutcomeView::Removed { name: name@, id: known[name@] }
            } else {
                PeerOutcomeView::NotKnown { name: name@, id: known[name@] }
            }
        },
    }
}

/// Reads texts as identifiers.
fn parse_ids(texts: &Vec<String>) -> (outcome: PeerOutcome)
    ensures
        outcome@ == ids_or_invalid(text_views(texts@), parsed_ids(text_views(texts@))),
{
    let mut parsed: Vec<Option<Id>> = Vec::new();
    let mut i: usize = 0;
    while i < texts.len()
        invariant
            i <= texts@.len(),
            parsed@.len() == i,
            forall|j: int| 0 <= j < i ==> #[trigger] parsed@[j] == parsed_id(texts@[j]@),
        decreases texts@.len() - i,
    {
        match parse_str(texts[i].as_str()) {
            Ok(id) => parsed.push(Some(id)),
            Err(_) => parsed.push(None),
        }
        i += 1;
    }
    assert(parsed@ =~= parsed_ids(text_views(texts@)));
    collect_ids(texts, &parsed)
}

/// Takes the identifiers that were read in some texts, or the first text that
/// holds none.
pub fn collect_ids(texts: &Vec<String>, parsed: &Vec<Option<Id>>) -> (outcome: PeerOutcome)
    requires
        texts@.len() == parsed@.len(),
    ensures
        outcome@ == ids_or_invalid(text_views(texts@), parsed@),
{
    let ghost views = text_views(texts@);
    let mut ids: Vec<Id> = Vec::new();
    let mut i: usize = 0;
    assert(ids@ =~= Seq::<Id>::empty());
    while i < texts.len()
        invariant
            i <= texts@.len(),
            texts@.len() == parsed@.len(),
            views == text_views(texts@),
            ids_or_invalid(views.take(i as int), parsed@) == (PeerOutcomeView::Query { ids: ids@ }),
        decreases texts@.len() - i,
    {
        assert(views.take(i + 1).drop_last() =~= views.take(i as int));
        assert(views.take(i + 1).last() == texts@[i as int]@);
        match parsed[i] {
            Some(id) => {
                ids.push(id);
            },
            None => {
                proof {
                    invalid_stays(views.take(i + 1), views, parsed@);
                }
                return PeerOutcome::InvalidId { text: texts[i].clone() };
            },
        }
        i += 1;
    }
    assert(views.take(i as int) =~= views);
    PeerOutcome::Query { ids }
}

/// A text without identifier among the first texts is reported of all of them.
proof fn invalid_stays(part: Seq<Seq<char>>, texts: Seq<Seq<char>>, parsed: Seq<Option<Id>>)
    requires
        part.len() <= texts.len(),
        part == texts.take(part.len() as int),
        ids_or_invalid(part, parsed) is InvalidId,
    ensures
        ids_or_invalid(texts, parsed) == ids_or_invalid(part, parsed),
    decreases texts.len(),
{
    if part.len() < texts.len() {
        assert(texts.drop_last().take(part.len() as int) =~= part);
        invalid_stays(part, texts.drop_last(), parsed);
    } else {
        assert(part =~= texts);
    }
}

/// Takes an identifier out of a list, wherever it occurs.
fn remove_id(ids: &Vec<Id>, id: Id) -> (rest: Vec<Id>)
    ensures
        rest@ == without_peer(ids@, id),
{
    let ghost keep = is_other_than(id);
    let mut rest: Vec<Id> = Vec::new();
    let mut i: usize = 0;
    proof {
        reveal(Seq::filter);
        assert(rest@ =~= ids@.take(0).filter(keep));
    }
    while i < ids.len()
        invariant
            i <= ids@.len(),
            keep == is_other_than(id),
            rest@ == ids@.take(i as int).filter(keep),
        decreases ids@.len() - i,
    {
        proof {
            reveal(Seq::filter);
            assert(ids@.take(i + 1).drop_last() =~= ids@.take(i as int));
        }
        if ids[i] != id {
            rest.push(ids[i]);
        }
        i += 1;
    }
    assert(ids@.take(i as int) =~= ids@);
    rest
}

/// Runs a command on the peers of a node.
pub fn handle_peer_command(command: PeerCommands, node: &mut Node, known: &KnownNodes) -> (outcome:
    PeerOutcome)
    ensures
        outcome@ == peer_outcome(old(node).peers@, command, known@),
        final(node)@ == (NodeView {
            peers: peers_after(old(node).peers@, command, known@),
            ..old(node)@
        }),
        final(node).routing_engine == old(node).routing_engine,
{
    match command {
        PeerCommands::ListPeers => PeerOutcome::Peers { ids: copy_ids(&node.peers) },
        PeerCommands::GetConnectedPeers { ids } => parse_ids(&ids),
        PeerCommands::Add { name } => match known.get(name.as_str()) {
            None => PeerOutcome::NoSuchNode { name },
            Some(id) => {
                if contains_id(node.peers.as_slice(), id) {
                    PeerOutcome::AlreadyKnown { id }
                } else {
                    node.peers.push(id);
                    PeerOutcome::Added { name, id }
                }
            },
        },
        PeerCommands::Remove { name } => match known.get(name.as_str()) {
            None => PeerOutcome::NoSuchNode { name },
            Some(id) => {
                let found = contains_id(node.peers.as_slice(), id);
                let rest = remove_id(&node.peers, id);
                node.peers = rest;
                if found {
                    PeerOutcome::Removed { name, id }
                } else {
                    PeerOutcome::NotKnown { name, id }
                }
            },
        },
    }
}

/// The connected nodes but the one that asked, given what the registry said.
pub open spec fn connected_others(node_id: Id, peers: Seq<PeerRecordView>) -> Seq<PeerRecordView> {
    peers.filter(|peer: PeerRecordView| peer.node.id != node_id)
}

/// Reads off what the registry said which other nodes are connected.
pub fn other_connected_peers(node_id: Id, reply: Option<ServerResponse>) -> (peers: Vec<PeerRecord>)
    ensures
        record_views(peers@) == connected_others(node_id, known_peers(reply)),
        forall|i: int| 0 <= i < peers@.len() ==> (#[trigger] peers@[i]).node.is_detached(),
{
    let ghost keep = |peer: PeerRecordView| peer.node.id != node_id;
    let mut peers: Vec<PeerRecord> = Vec::new();
    proof {
        reveal(Seq::filter);
        assert(record_views(peers@) =~= Seq::<PeerRecordView>::empty().filter(keep));
    }
    if let Some(ServerResponse::Peers(records)) = reply {
        let ghost views = record_views(records@);
        let mut i: usize = 0;
        assert(views.take(0) =~= Seq::<PeerRecordView>::empty());
        while i < records.len()
            invariant
                i <= records@.len(),
                views == record_views(records@),
                keep == (|peer: PeerRecordView| peer.node.id != node_id),
                record_views(peers@) == views.take(i as int).filter(keep),
                forall|j: int| 0 <= j < peers@.len() ==> (#[trigger] peers@[j]).node.is_detached(),
            decreases records@.len() - i,
        {
            let ghost before = peers@;
            proof {
                reveal(Seq::filter);
                assert(views.take(i + 1).drop_last() =~= views.take(i as int));
                assert(views.take(i + 1).last() == records@[i as int]@);
            }
            if records[i].node.id != node_id {
                peers.push(records[i].detached());
                assert(record_views(peers@) =~= record_views(before).push(records@[i as int]@));
            }
            i += 1;
        }
        assert(views.take(i as int) =~= views);
    }
    peers
}

/// How far the start of a node has come.
#[derive(Clone, Copy, Debug, PartialEq, Eq, Structural)]
pub enum StartState {
    /// The engine of the node is to be configured.
    Configure,
    /// A listener is to be set up.
    Listen,
    /// The node is to be registered.
    Register,
    /// The node listens and is registered.
    Started,
    /// The node listens, but is not registered.
    Unregistered,
    /// The node was not started.
    Aborted,
}

/// The state after a step that succeeded or failed. A node that listens already
/// gets no second listener.
pub open spec fn start_next(listens: bool, state: StartState, succeeded: bool) -> StartState {
    match state {
        StartState::Configure => if !succeeded {
            StartState::Aborted
        } else if listens {
            StartState::Register
        } else {
            StartState::Listen
        },
        StartState::Listen => if succeeded {
            StartState::Register
        } else {
            StartState::Aborted
        },
        StartState::Register => if succeeded {
            StartState::Started
        } else {
            StartState::Unregistered
        },
        _ => state,
    }
}

/// The nodes that listen after a step in the start of a node.
pub open spec fn started_after(
    started: Set<Id>,
    id: Id,
    state: StartState,
    succeeded: bool,
) -> Set<Id> {
    if state == StartState::Listen && succeeded {
        started.insert(id)
    } else {
        started
    }
}

/// The nodes that are registered after a step in the start of a node.
pub open spec fn registered_after(
    registered: Set<Id>,
    id: Id,
    state: StartState,
    succeeded: bool,
) -> Set<Id> {
    if state == StartState::Register && succeeded {
        registered.insert(id)
    } else {
        registered
    }
}

/// What is to be ended when a node stops.
#[derive(Clone, Copy, Debug, PartialEq, Eq, Structural)]
pub struct StopOrders {
    /// The node was registered: its connection to the registry is to be closed.
    pub was_registered: bool,
    /// The node listened: its listener is to be closed, so that its endpoint is
    /// free for another.
    pub close_listener: bool,
}

/// What is to be ended when a node stops, where the sets are those before it.
pub open spec fn stop_orders(started: Set<Id>, registered: Set<Id>, id: Id) -> StopOrders {
    StopOrders { was_registered: registered.contains(id), close_listener: started.contains(id) }
}

impl NodeRuntime {
    /// A process in which no node runs.
    pub fn new() -> (runtime: NodeRuntime)
        ensures
            runtime.started@ == Set::<Id>::empty(),
            runtime.registered@ == Set::<Id>::empty(),
    {
        NodeRuntime { started: HashSet::new(), registered: HashSet::new() }
    }

    /// Goes on with the start of a node once a step has succeeded or failed. A
    /// node that got its listener is started, one that was registered is
    /// registered.
    pub fn start_node(&mut self, id: Id, state: StartState, succeeded: bool) -> (next: StartState)
        ensures
            next == start_next(old(self).started@.contains(id), state, succeeded),
            final(self).started@ == started_after(old(self).started@, id, state, succeeded),
            final(self).registered@ == registered_after(
                old(self).registered@,
                id,
                state,
                succeeded,
            ),
    {
        match state {
            StartState::Configure => {
                if !succeeded {
                    StartState::Aborted
                } else if self.started.contains(&id) {
                    StartState::Register
                } else {
                    StartState::Listen
                }
            },
            StartState::Listen => {
                if succeeded {
                    self.started.insert(id);
                    StartState::Register
                } else {
                    StartState::Aborted
                }
            },
            StartState::Register => {
                if succeeded {
                    self.registered.insert(id);
                    StartState::Started
                } else {
                    StartState::Unregistered
                }
            },
            _ => state,
        }
    }

    /// Takes a node off the registry and lets it be started anew. It says what is
    /// to be ended for that.
    pub fn stop_node(&mut self, id: Id) -> (orders: StopOrders)
        ensures
            orders == stop_orders(old(self).started@, old(self).registered@, id),
            final(self).registered@ == old(self).registered@.remove(id),
            final(self).started@ == old(self).started@.remove(id),
    {
        let was_registered = self.registered.remove(&id);
        let close_listener = self.started.remove(&id);
        StopOrders { was_registered, close_listener }
    }
}

/// Makes the engine of a node that starts ask the given registry, and know the
/// peers of the node.
pub fn configure_engine(engine: &mut RoutingEngine, node: &Node, server: &str)
    ensures
        final(engine).registry_addr@ == server@,
        final(engine).peers@ == node.peers@,
        *final(engine) == (RoutingEngine {
            registry_addr: final(engine).registry_addr,
            peers: final(engine).peers,
            ..*old(engine)
        }),
{
    engine.registry_addr = server.to_owned();
    engine.peers = copy_ids(&node.peers);
}

/// Makes the engine of a node that sends know the peers of the node.
pub fn sync_peers(engine: &mut RoutingEngine, node: &Node)
    ensures
        final(engine).peers@ == node.peers@,
        *final(engine) == (RoutingEngine { peers: final(engine).peers, ..*old(engine) }),
{
    engine.peers = copy_ids(&node.peers);
}

/// How many bundles the engine of a node holds; none where there is no engine.
pub fn stored_bundles(engine: Option<&RoutingEngine>) -> (count: usize)
    requires
        engine matches Some(engine) ==> engine.wf(),
    ensures
        count == (match engine {
            Some(engine) => engine.bundle_manager@.len(),
            None => 0,
        }),
{
    match engine {
        Some(engine) => engine.bundle_manager.all().len(),
        None => 0,
    }
}

/// What a command comes to.
#[derive(Debug)]
pub enum CommandOutcome {
    /// There is no node with this name.
    NoSuchNode { name: String },
    /// All the nodes.
    Nodes { lines: Vec<NodeLine> },
    /// The node at this place is to be started: it is to listen at this address,
    /// and what it tells this registry is how it is known there.
    Start { place: usize, bind_address: String, registration: Node, server: String },
    /// The node at this place was stopped, and this is to be ended.
    Stopped { place: usize, orders: StopOrders },
    /// The state of the node at this place.
    Status { place: usize, report: StatusReport },
    /// The node at this place is to route this bundle.
    Send { place: usize, bundle: Bundle },
    /// What a command on the peers of the node at this place came to.
    Peers { place: usize, outcome: PeerOutcome },
}

/// Whether a command came to that there is no node with a name.
pub open spec fn is_no_such_node(outcome: CommandOutcome, name: Seq<char>) -> bool {
    outcome matches CommandOutcome::NoSuchNode { name: missing } && missing@ == name
}

/// Whether a command comes to an outcome, where the nodes and the sets are those
/// before it.
pub open spec fn is_outcome_of(
    outcome: CommandOutcome,
    command: NodeCommands,
    nodes: Seq<NodeView>,
    started: Set<Id>,
    registered: Set<Id>,
) -> bool {
    match command {
        NodeCommands::All => outcome matches CommandOutcome::Nodes { lines } && {
            &&& lines@.len() == nodes.len()
            &&& forall|i: int|
                0 <= i < nodes.len() ==> is_line_of(#[trigger] lines@[i], nodes[i], started)
        },
        NodeCommands::Start { name, server } => match first_named(nodes, name@) {
            None => is_no_such_node(outcome, name@),
            Some(i) => outcome matches CommandOutcome::Start {
                place,
                bind_address,
                registration,
                server: registry,
            } && {
                &&& place == i
                &&& bind_address@ == endpoint_text(nodes[i].address, nodes[i].port)
                &&& registration@ == nodes[i]
                &&& registration.is_detached()
                &&& registry == server
            },
        },
        NodeCommands::Stop { name } => match first_named(nodes, name@) {
            None => is_no_such_node(outcome, name@),
            Some(i) => outcome matches CommandOutcome::Stopped { place, orders } && place == i
                && orders == stop_orders(started, registered, nodes[i].id),
        },
        NodeCommands::Status { name } => match first_named(nodes, name@) {
            None => is_no_such_node(outcome, name@),
            Some(i) => outcome matches CommandOutcome::Status { place, report } && place == i
                && is_report_of(report, nodes[i], registered),
        },
        NodeCommands::Send { from, to, message, ttl } => match (
            first_named(nodes, to@),
            first_named(nodes, from@),
        ) {
            (None, _) => is_no_such_node(outcome, to@),
            (_, None) => is_no_such_node(outcome, from@),
            (Some(receiver), Some(sender)) => outcome matches CommandOutcome::Send { place, bundle }
                && {
                &&& place == sender
                &&& bundle@ == fresh_bundle(
                    bundle.id,
                    bundle.timestamp,
                    nodes[sender],
                    nodes[receiver],
                    BundleKindView::Data { msg: message@ },
                    ttl,
                )
                &&& is_random_id(bundle.id)
                &&& is_clock_reading(bundle.timestamp)
                &&& bundle.is_detached()
            },
        },
        NodeCommands::Peers { name, command } => match first_named(nodes, name@) {
            None => is_no_such_node(outcome, name@),
            Some(i) => outcome matches CommandOutcome::Peers { place, outcome } && place == i
                && outcome@ == peer_outcome(nodes[i].peers, command, known_nodes(nodes)),
        },
    }
}

/// The nodes after a command: only one on peers changes any, and only the peers of
/// the node that it names.
pub open spec fn nodes_after(nodes: Seq<NodeView>, command: NodeCommands) -> Seq<NodeView> {
    match command {
        NodeCommands::Peers { name, command } => match first_named(nodes, name@) {
            Some(i) => nodes.update(
                i,
                NodeView {
                    peers: peers_after(nodes[i].peers, command, known_nodes(nodes)),
                    ..nodes[i]
                },
            ),
            None => nodes,
        },
        _ => nodes,
    }
}

/// Which of some running nodes still run after a command: only a stop ends one.
pub open spec fn running_after(running: Set<Id>, nodes: Seq<NodeView>, command: NodeCommands) -> Set<
    Id,
> {
    match command {
        NodeCommands::Stop { name } => match first_named(nodes, name@) {
            Some(i) => running.remove(nodes[i].id),
            None => running,
        },
        _ => running,
    }
}

/// Runs a command, as far as this process can without input and output.
pub fn handle_command(
    command: NodeCommands,
    nodes: &mut Vec<Node>,
    runtime: &mut NodeRuntime,
) -> (outcome: CommandOutcome)
    ensures
        is_outcome_of(
            outcome,
            command,
            node_views(old(nodes)@),
            old(runtime).started@,
            old(runtime).registered@,
        ),
        final(nodes)@.len() == old(nodes)@.len(),
        node_views(final(nodes)@) == nodes_after(node_views(old(nodes)@), command),
        forall|i: int|
            0 <= i < old(nodes)@.len() ==> (#[trigger] final(nodes)@[i]).routing_engine == old(
                nodes,
            )@[i].routing_engine,
        final(runtime).started@ == running_after(
            old(runtime).started@,
            node_views(old(nodes)@),
            command,
        ),
        final(runtime).registered@ == running_after(
            old(runtime).registered@,
            node_views(old(nodes)@),
            command,
        ),
{
    match command {
        NodeCommands::All => CommandOutcome::Nodes { lines: node_lines(nodes, runtime) },
        NodeCommands::Start { name, server } => match find_node(nodes, name.as_str()) {
            None => CommandOutcome::NoSuchNode { name },
            Some(place) => {
                let node = &nodes[place];
                CommandOutcome::Start {
                    place,
                    bind_address: endpoint(node.address.as_str(), node.port),
                    registration: node.detached(),
                    server,
                }
            },
        },
        NodeCommands::Stop { name } => match find_node(nodes, name.as_str()) {
            None => CommandOutcome::NoSuchNode { name },
            Some(place) => {
                let orders = runtime.stop_node(nodes[place].id);
                CommandOutcome::Stopped { place, orders }
            },
        },
        NodeCommands::Status { name } => match find_node(nodes, name.as_str()) {
            None => CommandOutcome::NoSuchNode { name },
            Some(place) => {
                let node = &nodes[place];
                let report = StatusReport {
                    id: node.id,
                    name: node.name.clone(),
                    endpoint: endpoint(node.address.as_str(), node.port),
                    peers: node.peers.len(),
                    running: runtime.registered.contains(&node.id),
                };
                CommandOutcome::Status { place, report }
            },
        },
        NodeCommands::Send { from, to, message, ttl } => match find_node(nodes, to.as_str()) {
            None => CommandOutcome::NoSuchNode { name: to },
            Some(receiver) => match find_node(nodes, from.as_str()) {
                None => CommandOutcome::NoSuchNode { name: from },
                Some(place) => {
                    let source = nodes[place].detached();
                    let destination = nodes[receiver].detached();
                    let kind = BundleKind::Data { msg: message };
                    let bundle = Bundle::new(source, destination, kind, ttl);
                    CommandOutcome::Send { place, bundle }
                },
            },
        },
        NodeCommands::Peers { name, command } => {
            let known = KnownNodes::of(nodes);
            match find_node(nodes, name.as_str()) {
                None => CommandOutcome::NoSuchNode { name },
                Some(place) => {
                    let outcome = handle_peer_command(command, &mut nodes[place], &known);
                    assert(node_views(nodes@) =~= nodes_after(
                        node_views(old(nodes)@),
                        NodeCommands::Peers { name, command },
                    ));
                    CommandOutcome::Peers { place, outcome }
                },
            }
        },
    }
}

/// The lines for all nodes.
fn node_lines(nodes: &Vec<Node>, runtime: &NodeRuntime) -> (lines: Vec<NodeLine>)
    ensures
        lines@.len() == nodes@.len(),
        forall|i: int|
            0 <= i < nodes@.len() ==> is_line_of(
                #[trigger] lines@[i],
                nodes@[i]@,
                runtime.started@,
            ),
{
    let mut lines: Vec<NodeLine> = Vec::new();
    let mut i: usize = 0;
    while i < nodes.len()
        invariant
            i <= nodes@.len(),
            lines@.len() == i,
            forall|j: int|
                0 <= j < i ==> is_line_of(#[trigger] lines@[j], nodes@[j]@, runtime.started@),
        decreases nodes@.len() - i,
    {
        let node = &nodes[i];
        lines.push(
            NodeLine {
                name: node.name.clone(),
                id: node.id,
                endpoint: endpoint(node.address.as_str(), node.port),
                peers: node.peers.len(),
                started: runtime.started.contains(&node.id),
            },
        );
        i += 1;
    }
    lines
}

} // verus!
