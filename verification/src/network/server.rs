//! The registry: which nodes there are, and which of them are connected.

use vstd::prelude::*;
use vstd::string::StringExecFns;

use crate::ident::{contains_id, Id};
use crate::routing::model::{Node, NodeView};
use crate::text::same_text;

verus! {

/// Whether a registered node has a connection to the registry.
#[derive(Clone, Copy, Debug, PartialEq, Eq, Structural)]
pub enum ConnectionStatus {
    Connected,
    Disconnected,
}

/// What the registry knows of one node.
#[derive(Debug)]
pub struct PeerRecord {
    pub node: Node,
    pub status: ConnectionStatus,
}

/// The contents of a `PeerRecord`.
#[verifier::ext_equal]
pub struct PeerRecordView {
    pub node: NodeView,
    pub status: ConnectionStatus,
}

impl View for PeerRecord {
    type V = PeerRecordView;

    open spec fn view(&self) -> PeerRecordView {
        PeerRecordView { node: self.node@, status: self.status }
    }
}

impl PeerRecord {
    /// A copy, of which the node has no engine.
    pub fn detached(&self) -> (copy: PeerRecord)
        ensures
            copy@ == self@,
            copy.node.is_detached(),
    {
        PeerRecord { node: self.node.detached(), status: self.status }
    }
}

/// The registered nodes, in the order in which they first came.
pub type PeerRegistry = Vec<PeerRecord>;

/// The contents of a list of records.
pub open spec fn record_views(records: Seq<PeerRecord>) -> Seq<PeerRecordView> {
    records.map_values(|record: PeerRecord| record@)
}

/// What a client asks of the registry.
#[derive(Debug)]
pub enum ServerRequest {
    /// To be listed as connected.
    Register(Node),
    /// Which of these nodes are connected; with none named, which of all.
    GetConnectedPeers(Vec<Id>),
}

/// What the registry answers.
#[derive(Debug)]
pub enum ServerResponse {
    /// The node is registered.
    Accepted,
    Peers(Vec<PeerRecord>),
    Error(String),
}

/// The contents of a `ServerResponse`.
#[verifier::ext_equal]
pub enum ServerResponseView {
    /// The node is registered.
    Accepted,
    Peers(Seq<PeerRecordView>),
    Error(Seq<char>),
}

impl View for ServerResponse {
    type V = ServerResponseView;

    open spec fn view(&self) -> ServerResponseView {
        match self {
            ServerResponse::Accepted => ServerResponseView::Accepted,
            ServerResponse::Peers(records) => ServerResponseView::Peers(record_views(records@)),
            ServerResponse::Error(reason) => ServerResponseView::Error(reason@),
        }
    }
}

/// Whether a node with a given identifier is registered.
pub open spec fn lists_id(registry: Seq<PeerRecordView>, id: Id) -> bool {
    exists|i: int| 0 <= i < registry.len() && (#[trigger] registry[i]).node.id == id
}

/// No two records are of one node.
pub open spec fn nodes_distinct(registry: Seq<PeerRecordView>) -> bool {
    forall|i: int, j: int|
        0 <= i < registry.len() && 0 <= j < registry.len() && (#[trigger] registry[i]).node.id == (
        #[trigger] registry[j]).node.id ==> i == j
}

/// The registry after a node registered: its record is refreshed, or comes last
/// if there was none.
pub open spec fn registered(registry: Seq<PeerRecordView>, node: NodeView) -> Seq<PeerRecordView> {
    let record = PeerRecordView { node, status: ConnectionStatus::Connected };
    if lists_id(registry, node.id) {
        registry.map_values(
            |other: PeerRecordView| if other.node.id == node.id { record } else { other },
        )
    } else {
        registry.push(record)
    }
}

/// The registry after the connection of a node was lost.
pub open spec fn disconnected(registry: Seq<PeerRecordView>, id: Id) -> Seq<PeerRecordView> {
    registry.map_values(
        |other: PeerRecordView|
            if other.node.id == id {
                PeerRecordView { status: ConnectionStatus::Disconnected, ..other }
            } else {
                other
            },
    )
}

/// The registry after every connection was lost.
pub open spec fn all_disconnected(registry: Seq<PeerRecordView>) -> Seq<PeerRecordView> {
    registry.map_values(
        |other: PeerRecordView|
            PeerRecordView { status: ConnectionStatus::Disconnected, ..other },
    )
}

/// Whether a record answers a question for connected nodes: the node is
/// connected, and it is named or no node is.
pub open spec fn is_asked_for(record: PeerRecordView, requested: Seq<Id>) -> bool {
    record.status == ConnectionStatus::Connected && (requested.len() == 0 || requested.contains(
        record.node.id,
    ))
}

/// The records that answer a question for connected nodes.
pub open spec fn connected_peers(registry: Seq<PeerRecordView>, requested: Seq<Id>) -> Seq<
    PeerRecordView,
> {
    registry.filter(|record: PeerRecordView| is_asked_for(record, requested))
}

/// The registry server.
#[derive(Debug)]
pub struct Server {
    pub peer_registry: PeerRegistry,
}

impl View for Server {
    type V = Seq<PeerRecordView>;

    open spec fn view(&self) -> Seq<PeerRecordView> {
        record_views(self.peer_registry@)
    }
}

/// What the server remembers of one client connection: the node that last
/// registered on it.
#[derive(Debug)]
pub struct ClientSession {
    pub node_id: Option<Id>,
}

/// What happens on a client connection.
#[derive(Debug)]
pub enum ClientEvent {
    /// The client went away, or reading from it failed.
    Closed,
    /// What was read is no request; the text says why.
    Invalid(String),
    /// A request was read.
    Request(ServerRequest),
}

/// What is to be done on a client connection.
#[derive(Debug)]
pub enum ClientAction {
    Reply(ServerResponse),
    Close,
}

/// The text of the answer to what is no request.
pub open spec fn invalid_request_text(reason: Seq<char>) -> Seq<char> {
    "Invalid request JSON: "@ + reason
}

/// The session after an event.
pub open spec fn next_session(session: Option<Id>, event: ClientEvent) -> Option<Id> {
    match event {
        ClientEvent::Request(ServerRequest::Register(node)) => Some(node.id),
        _ => session,
    }
}

/// The registry after an event.
pub open spec fn next_registry(
    registry: Seq<PeerRecordView>,
    session: Option<Id>,
    event: ClientEvent,
) -> Seq<PeerRecordView> {
    match event {
        ClientEvent::Closed => match session {
            Some(id) => disconnected(registry, id),
            None => registry,
        },
        ClientEvent::Request(ServerRequest::Register(node)) => registered(registry, node@),
        _ => registry,
    }
}

/// The answer to an event, if it is not the end of the connection.
pub open spec fn answer(registry: Seq<PeerRecordView>, event: ClientEvent) -> Option<
    ServerResponseView,
> {
    match event {
        ClientEvent::Closed => None,
        ClientEvent::Invalid(reason) => Some(
            ServerResponseView::Error(invalid_request_text(reason@)),
        ),
        ClientEvent::Request(ServerRequest::Register(_)) => Some(ServerResponseView::Accepted),
        ClientEvent::Request(ServerRequest::GetConnectedPeers(ids)) => Some(
            ServerResponseView::Peers(connected_peers(registry, ids@)),
        ),
    }
}

/// The answer to an event while the registry is out of use.
pub open spec fn answer_without_registry(event: ClientEvent) -> Option<ServerResponseView> {
    match event {
        ClientEvent::Closed => None,
        ClientEvent::Invalid(reason) => Some(
            ServerResponseView::Error(invalid_request_text(reason@)),
        ),
        ClientEvent::Request(ServerRequest::Register(_)) => Some(
            ServerResponseView::Error("Registry lock poisoned"@),
        ),
        ClientEvent::Request(ServerRequest::GetConnectedPeers(_)) => Some(
            ServerResponseView::Peers(Seq::empty()),
        ),
    }
}

impl ClientAction {
    /// The answer to be sent, if the connection goes on.
    pub open spec fn reply(self) -> Option<ServerResponseView> {
        match self {
            ClientAction::Reply(response) => Some(response@),
            ClientAction::Close => None,
        }
    }
}

fn invalid_request(reason: &str) -> (response: ServerResponse)
    ensures
        response@ == ServerResponseView::Error(invalid_request_text(reason@)),
{
    let mut text = "Invalid request JSON: ".to_owned();
    text.append(reason);
    ServerResponse::Error(text)
}

impl ClientSession {
    /// A connection on which no node registered yet.
    pub fn new() -> (session: ClientSession)
        ensures
            session.node_id is None,
    {
        ClientSession { node_id: None }
    }

    /// Handles an event while the registry is out of use, because a holder of its
    /// lock panicked.
    pub fn handle_poisoned(&mut self, event: ClientEvent) -> (action: ClientAction)
        ensures
            final(self).node_id == next_session(old(self).node_id, event),
            action.reply() == answer_without_registry(event),
    {
        match event {
            ClientEvent::Closed => ClientAction::Close,
            ClientEvent::Invalid(reason) => ClientAction::Reply(invalid_request(reason.as_str())),
            ClientEvent::Request(ServerRequest::Register(node)) => {
                self.node_id = Some(node.id);
                ClientAction::Reply(ServerResponse::Error("Registry lock poisoned".to_owned()))
            },
            ClientEvent::Request(ServerRequest::GetConnectedPeers(_)) => {
                let none: Vec<PeerRecord> = Vec::new();
                assert(record_views(none@) =~= Seq::<PeerRecordView>::empty());
                ClientAction::Reply(ServerResponse::Peers(none))
            },
        }
    }
}

impl Server {
    /// No node is registered twice, and no record holds an engine.
    pub open spec fn wf(&self) -> bool {
        &&& nodes_distinct(self@)
        &&& forall|i: int|
            0 <= i < self.peer_registry@.len() ==> (
            #[trigger] self.peer_registry@[i]).node.is_detached()
    }

    /// A server that no node registered with yet.
    pub fn new() -> (server: Self)
        ensures
            server.wf(),
            server@ == Seq::<PeerRecordView>::empty(),
    {
        let server = Server { peer_registry: Vec::new() };
        assert(server@ =~= Seq::<PeerRecordView>::empty());
        server
    }

    fn position(&self, id: Id) -> (place: Option<usize>)
        ensures
            match place {
                Some(i) => i < self@.len() && self@[i as int].node.id == id,
                None => !lists_id(self@, id),
            },
    {
        let mut i: usize = 0;
        while i < self.peer_registry.len()
            invariant
                i <= self.peer_registry@.len(),
                forall|j: int| 0 <= j < i ==> (#[trigger] self@[j]).node.id != id,
            decreases self.peer_registry@.len() - i,
        {
            if self.peer_registry[i].node.id == id {
                assert(self@[i as int].node.id == id);
                return Some(i);
            }
            i += 1;
        }
        None
    }

    /// Lists a node as connected. An engine that it comes with is not kept.
    pub fn register(&mut self, node: Node)
        requires
            old(self).wf(),
        ensures
            final(self).wf(),
            final(self)@ == registered(old(self)@, node@),
    {
        let mut listed = node;
        listed.routing_engine = None;
        let record = PeerRecord { node: listed, status: ConnectionStatus::Connected };
        match self.position(record.node.id) {
            Some(i) => {
                assert(old(self)@[i as int].node.id == record@.node.id);
                self.peer_registry.set(i, record);
                assert(self@ =~= registered(old(self)@, node@));
            },
            None => {
                self.peer_registry.push(record);
                assert(self@ =~= registered(old(self)@, node@));
            },
        }
    }

    /// Marks a node as disconnected, if it is registered, and says whether it is.
    pub fn mark_disconnected(&mut self, id: Id) -> (found: bool)
        requires
            old(self).wf(),
        ensures
            final(self).wf(),
            final(self)@ == disconnected(old(self)@, id),
            found == lists_id(old(self)@, id),
    {
        match self.position(id) {
            Some(i) => {
                assert(old(self)@[i as int].node.id == id);
                self.peer_registry[i].status = ConnectionStatus::Disconnected;
                assert(self@ =~= disconnected(old(self)@, id));
                true
            },
            None => {
                assert(self@ =~= disconnected(old(self)@, id));
                false
            },
        }
    }

    /// Marks every node as disconnected.
    pub fn disconnect_server(&mut self)
        ensures
            final(self)@ == all_disconnected(old(self)@),
            old(self).wf() ==> final(self).wf(),
    {
        let mut i: usize = 0;
        while i < self.peer_registry.len()
            invariant
                i <= self.peer_registry@.len(),
                self.peer_registry@.len() == old(self).peer_registry@.len(),
                forall|j: int|
                    0 <= j < i ==> (#[trigger] self.peer_registry@[j])@ == (PeerRecordView {
                        status: ConnectionStatus::Disconnected,
                        ..old(self).peer_registry@[j]@
                    }),
                forall|j: int|
                    0 <= j < self.peer_registry@.len() ==> (
                    #[trigger] self.peer_registry@[j]).node == old(self).peer_registry@[j].node,
                forall|j: int|
                    i <= j < self.peer_registry@.len() ==> (#[trigger] self.peer_registry@[j])
                        == old(self).peer_registry@[j],
            decreases self.peer_registry@.len() - i,
        {
            self.peer_registry[i].status = ConnectionStatus::Disconnected;
            i += 1;
        }
        assert(self@ =~= all_disconnected(old(self)@));
        assert(old(self).wf() ==> self.wf()) by {
            assert(forall|k: int| 0 <= k < self@.len() ==> (#[trigger] self@[k]).node.id == old(self)@[k].node.id);
        }
    }

    /// The connected nodes among those named; with none named, all of them.
    pub fn get_connected_peers(&self, requested_ids: &[Id]) -> (peers: Vec<PeerRecord>)
        ensures
            record_views(peers@) == connected_peers(self@, requested_ids@),
            forall|i: int| 0 <= i < peers@.len() ==> (#[trigger] peers@[i]).node.is_detached(),
    {
        let ghost keep = |record: PeerRecordView| is_asked_for(record, requested_ids@);
        let mut peers: Vec<PeerRecord> = Vec::new();
        let mut i: usize = 0;
        assert(record_views(peers@) =~= self@.take(0).filter(keep)) by {
            reveal(Seq::filter);
        }
        while i < self.peer_registry.len()
            invariant
                i <= self.peer_registry@.len(),
                keep == (|record: PeerRecordView| is_asked_for(record, requested_ids@)),
                record_views(peers@) == self@.take(i as int).filter(keep),
                forall|j: int| 0 <= j < peers@.len() ==> (#[trigger] peers@[j]).node.is_detached(),
            decreases self.peer_registry@.len() - i,
        {
            let record = &self.peer_registry[i];
            let ghost before = peers@;
            proof {
                reveal(Seq::filter);
                assert(self@.take(i + 1).drop_last() =~= self@.take(i as int));
                assert(self@.take(i + 1).last() == record@);
            }
            if record.status == ConnectionStatus::Connected && (requested_ids.is_empty()
                || contains_id(requested_ids, record.node.id)) {
                peers.push(record.detached());
                assert(record_views(peers@) =~= record_views(before).push(record@));
            }
            i += 1;
        }
        assert(self@.take(i as int) =~= self@);
        peers
    }

    /// Handles an event on a client connection.
    ///
    /// A node that registers is listed as connected and answered so; a question
    /// is answered with the connected nodes; what is no request is answered with
    /// the reason. When the connection ends, the node that last registered on it
    /// is marked as disconnected.
    pub fn handle_client(&mut self, session: &mut ClientSession, event: ClientEvent) -> (action:
        ClientAction)
        requires
            old(self).wf(),
        ensures
            final(self).wf(),
            final(self)@ == next_registry(old(self)@, old(session).node_id, event),
            final(session).node_id == next_session(old(session).node_id, event),
            action.reply() == answer(old(self)@, event),
            action matches ClientAction::Reply(ServerResponse::Peers(records)) ==> forall|i: int|
                0 <= i < records@.len() ==> (#[trigger] records@[i]).node.is_detached(),
    {
        match event {
            ClientEvent::Closed => {
                if let Some(id) = session.node_id {
                    let _ = self.mark_disconnected(id);
                }
                ClientAction::Close
            },
            ClientEvent::Invalid(reason) => ClientAction::Reply(invalid_request(reason.as_str())),
            ClientEvent::Request(ServerRequest::Register(node)) => {
                session.node_id = Some(node.id);
                self.register(node);
                ClientAction::Reply(ServerResponse::Accepted)
            },
            ClientEvent::Request(ServerRequest::GetConnectedPeers(ids)) => {
                let peers = self.get_connected_peers(ids.as_slice());
                ClientAction::Reply(ServerResponse::Peers(peers))
            },
        }
    }
}

/// Whether no node in a registry has a given name.
pub open spec fn name_is_free(registry: Seq<PeerRecordView>, name: Seq<char>) -> bool {
    forall|i: int| 0 <= i < registry.len() ==> (#[trigger] registry[i]).node.name != name
}

/// Whether no registered node has a given name. Of a registry that is out of use,
/// because a holder of its lock panicked, nothing is said to be unique: it is
/// passed as `None`.
pub fn verify_unique_name(registry: Option<&PeerRegistry>, name: &str) -> (unique: bool)
    ensures
        unique == (match registry {
            Some(registry) => name_is_free(record_views(registry@), name@),
            None => false,
        }),
{
    let records = match registry {
        Some(records) => records,
        None => {
            return false;
        },
    };
    let ghost views = record_views(records@);
    let mut i: usize = 0;
    while i < records.len()
        invariant
            i <= records@.len(),
            registry == Some(records),
            views == record_views(records@),
            forall|j: int| 0 <= j < i ==> (#[trigger] views[j]).node.name != name@,
        decreases records@.len() - i,
    {
        if same_text(records[i].node.name.as_str(), name) {
            assert(views[i as int].node.name == name@);
            return false;
        }
        i += 1;
    }
    true
}

} // verus!
