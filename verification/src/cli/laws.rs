//! What holds of the commands as a whole.

use vstd::prelude::*;

use crate::cli::commands::{NodeCommands, PeerCommands};
use crate::cli::handler::{
    connected_others, first_named, ids_or_invalid, is_other_than, is_outcome_of, known_nodes,
    node_views, nodes_after, parsed_ids, peer_outcome, peers_after, registered_after, running_after, start_next,
    started_after, stop_orders, without_peer, CommandOutcome, PeerOutcome, PeerOutcomeView,
    StartState, StopOrders,
};
use crate::cli::shell::{action_for, startup_for, LineAction, LineActionView, Startup};
use crate::ident::{parsed_id, Id};
use crate::network::server::{ConnectionStatus, PeerRecordView};
use crate::routing::engine::peer_endpoint;
use crate::routing::model::{BundleKindView, MsgStatus, Node, NodeView};
use crate::sequences::{filter_all, filter_keeps_order, filter_members, push_members};
use crate::text::{
    endpoint_text, is_white_space, same_ignoring_ascii_case, text_views, unmarked_len,
    unmarked_len_bounded, white_space_marks, words,
};

verus! {

/// The node that a name finds is the first with that name; nothing is found if
/// and only if no node has it.
pub proof fn first_named_is_first(nodes: Seq<NodeView>, name: Seq<char>)
    ensures
        match first_named(nodes, name) {
            Some(i) => {
                &&& 0 <= i < nodes.len()
                &&& nodes[i].name == name
                &&& forall|j: int| 0 <= j < i ==> (#[trigger] nodes[j]).name != name
            },
            None => forall|j: int| 0 <= j < nodes.len() ==> (#[trigger] nodes[j]).name != name,
        },
    decreases nodes.len(),
{
    if nodes.len() > 0 {
        let init = nodes.drop_last();
        first_named_is_first(init, name);
        assert(forall|j: int| 0 <= j < init.len() ==> (#[trigger] nodes[j]) == init[j]);
    }
}

/// A peer can be named if and only if a node has the name, and where names are
/// used once, the name stands for that node.
pub proof fn known_nodes_are_the_nodes(nodes: Seq<NodeView>, i: int)
    requires
        0 <= i < nodes.len(),
    ensures
        known_nodes(nodes).contains_key(nodes[i].name),
        (forall|j: int| 0 <= j < nodes.len() && j != i ==> (#[trigger] nodes[j]).name
            != nodes[i].name) ==> known_nodes(nodes)[nodes[i].name] == nodes[i].id,
    decreases nodes.len(),
{
    let init = nodes.drop_last();
    if i < init.len() {
        known_nodes_are_the_nodes(init, i);
        assert(init[i] == nodes[i]);
        if forall|j: int| 0 <= j < nodes.len() && j != i ==> (#[trigger] nodes[j]).name
            != nodes[i].name {
            assert(forall|j: int| 0 <= j < init.len() ==> (#[trigger] init[j]) == nodes[j]);
            assert(nodes[nodes.len() - 1].name != nodes[i].name);
        }
    }
}

/// A name that no node has stands for nothing.
pub proof fn unknown_name_stands_for_nothing(nodes: Seq<NodeView>, name: Seq<char>)
    requires
        forall|j: int| 0 <= j < nodes.len() ==> (#[trigger] nodes[j]).name != name,
    ensures
        !known_nodes(nodes).contains_key(name),
    decreases nodes.len(),
{
    if nodes.len() > 0 {
        let init = nodes.drop_last();
        assert(forall|j: int| 0 <= j < init.len() ==> (#[trigger] init[j]) == nodes[j]);
        unknown_name_stands_for_nothing(init, name);
    }
}

/// A peer that was added is known, and adding it again changes nothing.
pub proof fn added_peer_is_known(peers: Seq<Id>, name: String, known: Map<Seq<char>, Id>)
    requires
        known.contains_key(name@),
    ensures
        ({
            let once = peers_after(peers, PeerCommands::Add { name }, known);
            &&& once.contains(known[name@])
            &&& peers_after(once, PeerCommands::Add { name }, known) == once
        }),
{
    push_members(peers, known[name@], known[name@]);
}

/// A peer that was removed is not known, every other is as before, and removing it
/// again changes nothing.
pub proof fn removed_peer_is_unknown(
    peers: Seq<Id>,
    name: String,
    known: Map<Seq<char>, Id>,
    other: Id,
)
    requires
        known.contains_key(name@),
        other != known[name@],
    ensures
        ({
            let after = peers_after(peers, PeerCommands::Remove { name }, known);
            &&& !after.contains(known[name@])
            &&& after.contains(other) <==> peers.contains(other)
            &&& peers_after(after, PeerCommands::Remove { name }, known) == after
        }),
{
    let id = known[name@];
    let after = without_peer(peers, id);
    filter_members(peers, is_other_than(id), id);
    filter_members(peers, is_other_than(id), other);
    assert forall|i: int| 0 <= i < after.len() implies is_other_than(id)(#[trigger] after[i]) by {
        filter_members(peers, is_other_than(id), after[i]);
        assert(after.contains(after[i]));
    }
    filter_all(after, is_other_than(id));
}

/// Removing undoes adding a peer that was not known.
pub proof fn remove_undoes_add(peers: Seq<Id>, name: String, known: Map<Seq<char>, Id>)
    requires
        known.contains_key(name@),
        !peers.contains(known[name@]),
    ensures
        peers_after(
            peers_after(peers, PeerCommands::Add { name }, known),
            PeerCommands::Remove { name },
            known,
        ) == peers,
{
    let id = known[name@];
    reveal(Seq::filter);
    assert(peers.push(id).drop_last() =~= peers);
    assert(!is_other_than(id)(id));
    assert forall|i: int| 0 <= i < peers.len() implies is_other_than(id)(#[trigger] peers[i]) by {
        assert(peers.contains(peers[i]));
    }
    filter_all(peers, is_other_than(id));
}

/// No command makes a node know a peer twice.
pub proof fn peers_stay_distinct(peers: Seq<Id>, command: PeerCommands, known: Map<Seq<char>, Id>)
    requires
        peers.no_duplicates(),
    ensures
        peers_after(peers, command, known).no_duplicates(),
{
    match command {
        PeerCommands::Add { name } => {
            if known.contains_key(name@) && !peers.contains(known[name@]) {
                let after = peers.push(known[name@]);
                assert forall|i: int, j: int|
                    0 <= i < after.len() && 0 <= j < after.len() && i != j implies after[i]
                    != after[j] by {
                    if i < peers.len() {
                        assert(peers.contains(peers[i]));
                    }
                    if j < peers.len() {
                        assert(peers.contains(peers[j]));
                    }
                }
            }
        },
        PeerCommands::Remove { name } => {
            if known.contains_key(name@) {
                filtered_stay_distinct(peers, is_other_than(known[name@]));
            }
        },
        _ => {},
    }
}

proof fn filtered_stay_distinct(ids: Seq<Id>, keep: spec_fn(Id) -> bool)
    requires
        ids.no_duplicates(),
    ensures
        ids.filter(keep).no_duplicates(),
    decreases ids.len(),
{
    reveal(Seq::filter);
    if ids.len() > 0 {
        let init = ids.drop_last();
        let last = ids.last();
        filtered_stay_distinct(init, keep);
        let kept = init.filter(keep);
        if keep(last) {
            assert forall|i: int| 0 <= i < kept.len() implies (#[trigger] kept[i]) != last by {
                filter_members(init, keep, kept[i]);
                assert(kept.contains(kept[i]));
                let j = choose|j: int| 0 <= j < init.len() && init[j] == kept[i];
                assert(ids[j] == kept[i]);
            }
        }
    }
}

/// A node gets one listener: while it listens, its start goes on to the
/// registration; once it was stopped, it listens anew.
pub proof fn one_listener_per_node(started: Set<Id>, id: Id)
    ensures
        start_next(
            started.insert(id).contains(id),
            StartState::Configure,
            true,
        ) == StartState::Register,
        start_next(
            started.remove(id).contains(id),
            StartState::Configure,
            true,
        ) == StartState::Listen,
{
}

/// The nodes with an open listener once a node was stopped and what was ordered is
/// done.
pub open spec fn listeners_after_stop(listeners: Set<Id>, id: Id, orders: StopOrders) -> Set<Id> {
    if orders.close_listener {
        listeners.remove(id)
    } else {
        listeners
    }
}

/// The nodes that count as started are those with an open listener. This holds on
/// through every step of a start, of which one that succeeds opens the listener,
/// and through every stop.
pub proof fn started_means_listening(
    started: Set<Id>,
    registered: Set<Id>,
    listeners: Set<Id>,
    id: Id,
    state: StartState,
    succeeded: bool,
)
    requires
        listeners == started,
    ensures
        started_after(started, id, state, succeeded) == (if state == StartState::Listen
            && succeeded {
            listeners.insert(id)
        } else {
            listeners
        }),
        listeners_after_stop(listeners, id, stop_orders(started, registered, id)) == started.remove(
            id,
        ),
{
    if !started.contains(id) {
        assert(started.remove(id) =~= started);
    }
}

/// A node that was stopped can be started again in the same process. Stopping it
/// closes the listener that it had, so that its endpoint is free; a start then sets
/// up a listener there anew, and if that, the registration and the step before
/// succeed, the node listens and is registered.
pub proof fn stopped_node_starts_again(
    nodes: Seq<NodeView>,
    name: String,
    server: String,
    started: Set<Id>,
    registered: Set<Id>,
    listeners: Set<Id>,
    stop: CommandOutcome,
    start: CommandOutcome,
    i: int,
)
    requires
        first_named(nodes, name@) == Some(i),
        listeners == started,
        is_outcome_of(stop, NodeCommands::Stop { name }, nodes, started, registered),
        is_outcome_of(
            start,
            NodeCommands::Start { name, server },
            nodes,
            running_after(started, nodes, NodeCommands::Stop { name }),
            running_after(registered, nodes, NodeCommands::Stop { name }),
        ),
    ensures
        ({
            let id = nodes[i].id;
            let stopped = running_after(started, nodes, NodeCommands::Stop { name });
            let left = running_after(registered, nodes, NodeCommands::Stop { name });
            let second = start_next(stopped.contains(id), StartState::Configure, true);
            let listening = started_after(stopped, id, second, true);
            let third = start_next(stopped.contains(id), second, true);
            let joined = registered_after(left, id, third, true);
            let last = start_next(listening.contains(id), third, true);
            &&& stop matches CommandOutcome::Stopped { place, orders }
            &&& place == i
            &&& listeners_after_stop(listeners, id, orders) == stopped
            &&& !listeners_after_stop(listeners, id, orders).contains(id)
            &&& start matches CommandOutcome::Start { place: again, bind_address, .. }
            &&& again == i
            &&& bind_address@ == endpoint_text(nodes[i].address, nodes[i].port)
            &&& second == StartState::Listen
            &&& last == StartState::Started
            &&& listening.contains(id)
            &&& joined.contains(id)
        }),
{
    let id = nodes[i].id;
    started_means_listening(started, registered, listeners, id, StartState::Listen, true);
}

/// The words of a line are not empty and hold no white space.
pub proof fn words_are_words(line: Seq<char>, i: int, j: int)
    requires
        0 <= i < words(line).len(),
    ensures
        words(line)[i].len() > 0,
        0 <= j < words(line)[i].len() ==> !is_white_space(words(line)[i][j]),
    decreases line.len(),
{
    let marks = white_space_marks(line);
    if marks[0] {
        assert(white_space_marks(line.skip(1)) =~= marks.skip(1));
        words_are_words(line.skip(1), i, j);
    } else {
        let n = unmarked_len(marks) as int;
        unmarked_len_bounded(marks);
        if i == 0 {
            if 0 <= j < n {
                unmarked_is_not_marked(marks, j);
            }
        } else {
            assert(white_space_marks(line.skip(n)) =~= marks.skip(n));
            assert(words(line)[i] == words(line.skip(n))[i - 1]);
            words_are_words(line.skip(n), i - 1, j);
        }
    }
}

proof fn unmarked_is_not_marked(marks: Seq<bool>, j: int)
    requires
        0 <= j < unmarked_len(marks),
    ensures
        j < marks.len(),
        !marks[j],
    decreases marks.len(),
{
    if j > 0 {
        unmarked_is_not_marked(marks.skip(1), j - 1);
    }
}

/// Whether a node at a place is the first with a name.
pub open spec fn is_first_named(nodes: Seq<NodeView>, name: Seq<char>, i: int) -> bool {
    &&& 0 <= i < nodes.len()
    &&& nodes[i].name == name
    &&& forall|j: int| 0 <= j < i ==> (#[trigger] nodes[j]).name != name
}

/// Whether no node has a name.
pub open spec fn is_nobodys_name(nodes: Seq<NodeView>, name: Seq<char>) -> bool {
    forall|j: int| 0 <= j < nodes.len() ==> (#[trigger] nodes[j]).name != name
}

/// The first node with a name is found by it, and nothing by a name that no node has.
pub proof fn first_named_is_found(nodes: Seq<NodeView>, name: Seq<char>, i: int)
    ensures
        is_first_named(nodes, name, i) ==> first_named(nodes, name) == Some(i),
        is_nobodys_name(nodes, name) ==> first_named(nodes, name) is None,
{
    first_named_is_first(nodes, name);
    if is_first_named(nodes, name, i) {
        if let Some(j) = first_named(nodes, name) {
            assert(nodes[j].name == name);
            assert(nodes[i].name == name);
        }
    }
}

/// A node that is started listens where others are told to reach it: what is told to
/// the registry that was named is the node as it is, without its engine, and the
/// endpoint at which it is to listen is the one at which a node that learns of it
/// from the registry connects.
pub proof fn started_node_listens_where_it_is_registered(
    outcome: CommandOutcome,
    nodes: Seq<NodeView>,
    name: String,
    server: String,
    started: Set<Id>,
    registered: Set<Id>,
    i: int,
    status: ConnectionStatus,
)
    requires
        is_outcome_of(outcome, NodeCommands::Start { name, server }, nodes, started, registered),
        is_first_named(nodes, name@, i),
    ensures
        outcome matches CommandOutcome::Start {
            place,
            bind_address,
            registration,
            server: registry,
        } && {
            &&& place == i
            &&& registration.id == nodes[i].id
            &&& registration.name@ == name@
            &&& registration.address@ == nodes[i].address
            &&& registration.port == nodes[i].port
            &&& registration.peers@ == nodes[i].peers
            &&& registration.routing_engine is None
            &&& bind_address@ == endpoint_text(registration.address@, registration.port)
            &&& bind_address@ == peer_endpoint(PeerRecordView { node: registration@, status })
            &&& registry@ == server@
        },
{
    first_named_is_found(nodes, name@, i);
}

/// A node that is stopped is the first with the name; it is said to have been
/// registered, and its listener to be closed, if and only if it was and it had one.
pub proof fn stopped_node_is_the_named_one(
    outcome: CommandOutcome,
    nodes: Seq<NodeView>,
    name: String,
    started: Set<Id>,
    registered: Set<Id>,
    i: int,
    other: Id,
)
    requires
        is_outcome_of(outcome, NodeCommands::Stop { name }, nodes, started, registered),
        is_first_named(nodes, name@, i),
    ensures
        outcome matches CommandOutcome::Stopped { place, orders } && {
            &&& place == i
            &&& orders.was_registered <==> registered.contains(nodes[i].id)
            &&& orders.close_listener <==> started.contains(nodes[i].id)
        },
        running_after(started, nodes, NodeCommands::Stop { name }).contains(other)
            <==> started.contains(other) && other != nodes[i].id,
{
    first_named_is_found(nodes, name@, i);
}

/// The report on a node tells its identifier, name, endpoint, how many peers it knows,
/// and that it runs if and only if it is registered.
pub proof fn status_tells_of_the_named_node(
    outcome: CommandOutcome,
    nodes: Seq<NodeView>,
    name: String,
    started: Set<Id>,
    registered: Set<Id>,
    i: int,
)
    requires
        is_outcome_of(outcome, NodeCommands::Status { name }, nodes, started, registered),
        is_first_named(nodes, name@, i),
    ensures
        outcome matches CommandOutcome::Status { place, report } && {
            &&& place == i
            &&& report.id == nodes[i].id
            &&& report.name@ == name@
            &&& report.endpoint@ == endpoint_text(nodes[i].address, nodes[i].port)
            &&& report.peers == nodes[i].peers.len()
            &&& report.running <==> registered.contains(nodes[i].id)
        },
{
    first_named_is_found(nodes, name@, i);
}

/// The list of all nodes has a line for each, in their order, which tells its name,
/// identifier, endpoint, how many peers it knows, and whether it listens.
pub proof fn every_node_is_listed(
    outcome: CommandOutcome,
    nodes: Seq<NodeView>,
    started: Set<Id>,
    registered: Set<Id>,
    i: int,
)
    requires
        is_outcome_of(outcome, NodeCommands::All, nodes, started, registered),
    ensures
        outcome matches CommandOutcome::Nodes { lines } && {
            &&& lines@.len() == nodes.len()
            &&& 0 <= i < nodes.len() ==> {
                &&& lines@[i].name@ == nodes[i].name
                &&& lines@[i].id == nodes[i].id
                &&& lines@[i].endpoint@ == endpoint_text(nodes[i].address, nodes[i].port)
                &&& lines@[i].peers == nodes[i].peers.len()
                &&& lines@[i].started <==> started.contains(nodes[i].id)
            }
        },
{
}

/// A message is sent by the node that it is from: the new bundle goes from that node
/// to the one that it is for, carries the message, lives as long as was said, is
/// pending, and carries no engine.
pub proof fn message_goes_from_sender_to_receiver(
    outcome: CommandOutcome,
    nodes: Seq<NodeView>,
    from: String,
    to: String,
    message: String,
    ttl: u64,
    started: Set<Id>,
    registered: Set<Id>,
    sender: int,
    receiver: int,
)
    requires
        is_outcome_of(
            outcome,
            NodeCommands::Send { from, to, message, ttl },
            nodes,
            started,
            registered,
        ),
        is_first_named(nodes, from@, sender),
        is_first_named(nodes, to@, receiver),
    ensures
        outcome matches CommandOutcome::Send { place, bundle } && {
            &&& place == sender
            &&& bundle.source@ == nodes[sender]
            &&& bundle.destination@ == nodes[receiver]
            &&& bundle.kind@ == (BundleKindView::Data { msg: message@ })
            &&& bundle.ttl == ttl
            &&& bundle.shipment_status == MsgStatus::Pending
            &&& bundle.source.routing_engine is None
            &&& bundle.destination.routing_engine is None
        },
{
    first_named_is_found(nodes, from@, sender);
    first_named_is_found(nodes, to@, receiver);
}

/// A command on a node that does not exist comes to that, with the name; of a message
/// the receiver is looked for first.
pub proof fn missing_nodes_are_reported(
    outcome: CommandOutcome,
    command: NodeCommands,
    nodes: Seq<NodeView>,
    started: Set<Id>,
    registered: Set<Id>,
    missing: Seq<char>,
)
    requires
        is_outcome_of(outcome, command, nodes, started, registered),
        is_nobodys_name(nodes, missing),
        match command {
            NodeCommands::All => false,
            NodeCommands::Start { name, .. } => name@ == missing,
            NodeCommands::Stop { name } => name@ == missing,
            NodeCommands::Status { name } => name@ == missing,
            NodeCommands::Send { from, to, .. } => to@ == missing || (from@ == missing
                && !is_nobodys_name(nodes, to@)),
            NodeCommands::Peers { name, .. } => name@ == missing,
        },
    ensures
        outcome matches CommandOutcome::NoSuchNode { name } && name@ == missing,
        nodes_after(nodes, command) == nodes,
        running_after(started, nodes, command) == started,
        running_after(registered, nodes, command) == registered,
{
    first_named_is_first(nodes, missing);
    if let NodeCommands::Send { from, to, .. } = command {
        first_named_is_first(nodes, to@);
    }
}

/// A command on peers is run on the first node with the name, and comes to what it
/// comes to for that node.
pub proof fn peer_command_is_run_on_the_named_node(
    result: CommandOutcome,
    nodes: Seq<NodeView>,
    name: String,
    command: PeerCommands,
    started: Set<Id>,
    registered: Set<Id>,
    i: int,
    j: int,
)
    requires
        is_outcome_of(result, NodeCommands::Peers { name, command }, nodes, started, registered),
        is_first_named(nodes, name@, i),
        0 <= j < nodes.len(),
    ensures
        result matches CommandOutcome::Peers { place, outcome } && place == i && outcome@
            == peer_outcome(nodes[i].peers, command, known_nodes(nodes)),
        ({
            let after = nodes_after(nodes, NodeCommands::Peers { name, command });
            &&& after.len() == nodes.len()
            &&& after[j].id == nodes[j].id
            &&& after[j].name == nodes[j].name
            &&& after[j].address == nodes[j].address
            &&& after[j].port == nodes[j].port
            &&& j != i ==> after[j].peers == nodes[j].peers
            &&& j == i ==> after[j].peers == peers_after(
                nodes[i].peers,
                command,
                known_nodes(nodes),
            )
        }),
{
    first_named_is_found(nodes, name@, i);
}

/// No command but one on peers changes a node, and none but a stop ends one.
pub proof fn other_commands_change_nothing(
    nodes: Seq<NodeView>,
    command: NodeCommands,
    running: Set<Id>,
)
    ensures
        !(command is Peers) ==> nodes_after(nodes, command) == nodes,
        !(command is Stop) ==> running_after(running, nodes, command) == running,
{
}

/// A name stands for the last node that has it.
pub proof fn name_stands_for_the_last(nodes: Seq<NodeView>, i: int)
    requires
        0 <= i < nodes.len(),
        forall|j: int| i < j < nodes.len() ==> (#[trigger] nodes[j]).name != nodes[i].name,
    ensures
        known_nodes(nodes).contains_key(nodes[i].name),
        known_nodes(nodes)[nodes[i].name] == nodes[i].id,
    decreases nodes.len(),
{
    let init = nodes.drop_last();
    if i < init.len() {
        assert(nodes[nodes.len() - 1].name != nodes[i].name);
        assert(forall|j: int| 0 <= j < init.len() ==> (#[trigger] init[j]) == nodes[j]);
        name_stands_for_the_last(init, i);
    }
}

/// What adding a peer comes to: that there is no such node if and only if the name
/// stands for none, that the peer was known if it was, and else that it was added. It
/// comes last, every other peer stays in its place, and where it was known or is
/// nobody, nothing changes.
pub proof fn adding_a_peer(
    peers: Seq<Id>,
    name: String,
    known: Map<Seq<char>, Id>,
    i: int,
)
    ensures
        ({
            let outcome = peer_outcome(peers, PeerCommands::Add { name }, known);
            let after = peers_after(peers, PeerCommands::Add { name }, known);
            let id = known[name@];
            &&& !known.contains_key(name@) ==> outcome == (PeerOutcomeView::NoSuchNode {
                name: name@,
            }) && after == peers
            &&& known.contains_key(name@) && peers.contains(id) ==> outcome == (
            PeerOutcomeView::AlreadyKnown { id }) && after == peers
            &&& known.contains_key(name@) && !peers.contains(id) ==> outcome == (
            PeerOutcomeView::Added { name: name@, id }) && after.len() == peers.len() + 1
                && after[peers.len() as int] == id
            &&& 0 <= i < peers.len() ==> after[i] == peers[i]
        }),
{
}

/// What removing a peer comes to: that there is no such node if and only if the name
/// stands for none, that the peer was not known if it was not, and else that it was
/// removed, wherever it stood. The others stay in their order.
pub proof fn removing_a_peer(
    peers: Seq<Id>,
    name: String,
    known: Map<Seq<char>, Id>,
    other: Id,
    i: int,
    j: int,
)
    ensures
        ({
            let outcome = peer_outcome(peers, PeerCommands::Remove { name }, known);
            let after = peers_after(peers, PeerCommands::Remove { name }, known);
            let id = known[name@];
            &&& !known.contains_key(name@) ==> outcome == (PeerOutcomeView::NoSuchNode {
                name: name@,
            }) && after == peers
            &&& known.contains_key(name@) && peers.contains(id) ==> outcome == (
            PeerOutcomeView::Removed { name: name@, id })
            &&& known.contains_key(name@) && !peers.contains(id) ==> outcome == (
            PeerOutcomeView::NotKnown { name: name@, id }) && after == peers
            &&& known.contains_key(name@) ==> (after.contains(other) <==> peers.contains(other)
                && other != id)
            &&& 0 <= i < j < after.len() ==> exists|a: int, b: int|
                0 <= a < b < peers.len() && #[trigger] peers[a] == after[i] && #[trigger] peers[b]
                    == after[j]
        }),
{
    let id = known[name@];
    let after = peers_after(peers, PeerCommands::Remove { name }, known);
    if known.contains_key(name@) {
        filter_members(peers, is_other_than(id), other);
        if !peers.contains(id) {
            assert forall|k: int| 0 <= k < peers.len() implies is_other_than(id)(
                #[trigger] peers[k],
            ) by {
                assert(peers.contains(peers[k]));
            }
            filter_all(peers, is_other_than(id));
        }
    }
    if 0 <= i < j < after.len() {
        if known.contains_key(name@) {
            filter_keeps_order(peers, is_other_than(id), i, j);
        } else {
            assert(peers[i] == after[i] && peers[j] == after[j]);
        }
    }
}

/// Listing the peers tells them all, in their order; neither this nor a question to
/// the registry changes them.
pub proof fn listing_peers(peers: Seq<Id>, ids: Vec<String>, known: Map<Seq<char>, Id>)
    ensures
        peer_outcome(peers, PeerCommands::ListPeers, known) == (PeerOutcomeView::Peers {
            ids: peers,
        }),
        peers_after(peers, PeerCommands::ListPeers, known) == peers,
        peers_after(peers, PeerCommands::GetConnectedPeers { ids }, known) == peers,
{
}

/// The registry is asked for the nodes whose identifiers were given, all of them and
/// in their order; where a text holds no identifier, nothing is asked, and the first
/// such text is told.
pub proof fn questions_name_what_was_given(
    peers: Seq<Id>,
    texts: Vec<String>,
    known: Map<Seq<char>, Id>,
    k: int,
)
    requires
        0 <= k < texts@.len(),
    ensures
        ({
            let outcome = peer_outcome(
                peers,
                PeerCommands::GetConnectedPeers { ids: texts },
                known,
            );
            &&& (forall|i: int| 0 <= i < texts@.len() ==> parsed_id((#[trigger] texts@[i])@) is Some)
                ==> (outcome matches PeerOutcomeView::Query { ids } && ids.len() == texts@.len()
                && parsed_id(texts@[k]@) == Some(ids[k]))
            &&& parsed_id(texts@[k]@) is None && (forall|i: int|
                0 <= i < k ==> parsed_id((#[trigger] texts@[i])@) is Some) ==> outcome == (
            PeerOutcomeView::InvalidId { text: texts@[k]@ })
        }),
{
    let views = text_views(texts@);
    let parsed = parsed_ids(views);
    assert forall|i: int| 0 <= i < texts@.len() implies #[trigger] parsed[i] == parsed_id(
        texts@[i]@,
    ) by {
        assert(views[i] == texts@[i]@);
    }
    if forall|i: int| 0 <= i < texts@.len() ==> parsed_id((#[trigger] texts@[i])@) is Some {
        assert forall|i: int| 0 <= i < views.len() implies (#[trigger] parsed[i]) is Some by {
            assert(parsed_id(texts@[i]@) is Some);
        }
        all_identifiers_are_taken(views, parsed, k);
    }
    if parsed_id(texts@[k]@) is None && (forall|i: int|
        0 <= i < k ==> parsed_id((#[trigger] texts@[i])@) is Some) {
        assert forall|i: int| 0 <= i < k implies (#[trigger] parsed[i]) is Some by {
            assert(parsed_id(texts@[i]@) is Some);
        }
        first_invalid_is_told(views, parsed, k);
        assert(views[k] == texts@[k]@);
    }
}

/// Where every text was read, the identifiers are taken in their order.
pub proof fn all_identifiers_are_taken(
    texts: Seq<Seq<char>>,
    parsed: Seq<Option<Id>>,
    k: int,
)
    requires
        texts.len() <= parsed.len(),
        forall|i: int| 0 <= i < texts.len() ==> (#[trigger] parsed[i]) is Some,
    ensures
        ids_or_invalid(texts, parsed) matches PeerOutcomeView::Query { ids } && ids.len()
            == texts.len() && (0 <= k < texts.len() ==> parsed[k] == Some(ids[k])),
    decreases texts.len(),
{
    if texts.len() > 0 {
        all_identifiers_are_taken(texts.drop_last(), parsed, k);
        assert(parsed[texts.len() - 1] is Some);
    }
}

/// The first text in which nothing was read is the one that is told.
pub proof fn first_invalid_is_told(texts: Seq<Seq<char>>, parsed: Seq<Option<Id>>, k: int)
    requires
        0 <= k < texts.len() <= parsed.len(),
        parsed[k] is None,
        forall|i: int| 0 <= i < k ==> (#[trigger] parsed[i]) is Some,
    ensures
        ids_or_invalid(texts, parsed) == (PeerOutcomeView::InvalidId { text: texts[k] }),
    decreases texts.len(),
{
    let init = texts.drop_last();
    if k < init.len() {
        first_invalid_is_told(init, parsed, k);
        assert(init[k] == texts[k]);
    } else {
        all_identifiers_are_taken(init, parsed, 0);
    }
}

/// The connected nodes that are told are those that the registry named, but for the
/// one that asked, in their order.
pub proof fn asking_node_is_left_out(
    node_id: Id,
    peers: Seq<PeerRecordView>,
    record: PeerRecordView,
    i: int,
    j: int,
)
    ensures
        connected_others(node_id, peers).contains(record) <==> peers.contains(record)
            && record.node.id != node_id,
        0 <= i < j < connected_others(node_id, peers).len() ==> exists|a: int, b: int|
            0 <= a < b < peers.len() && #[trigger] peers[a] == connected_others(node_id, peers)[i]
                && #[trigger] peers[b] == connected_others(node_id, peers)[j],
{
    let keep = |peer: PeerRecordView| peer.node.id != node_id;
    filter_members(peers, keep, record);
    if 0 <= i < j < connected_others(node_id, peers).len() {
        filter_keeps_order(peers, keep, i, j);
    }
}

/// The steps of a start: the engine is configured, then a listener set up unless the
/// node has one, then the node registered. A start whose first two steps do not
/// succeed is given up; without the last, the node listens unregistered. What has
/// ended stays so.
pub proof fn start_goes_step_by_step(listens: bool, succeeded: bool)
    ensures
        start_next(listens, StartState::Configure, false) == StartState::Aborted,
        start_next(true, StartState::Configure, true) == StartState::Register,
        start_next(false, StartState::Configure, true) == StartState::Listen,
        start_next(listens, StartState::Listen, true) == StartState::Register,
        start_next(listens, StartState::Listen, false) == StartState::Aborted,
        start_next(listens, StartState::Register, true) == StartState::Started,
        start_next(listens, StartState::Register, false) == StartState::Unregistered,
        start_next(listens, StartState::Started, succeeded) == StartState::Started,
        start_next(listens, StartState::Unregistered, succeeded) == StartState::Unregistered,
        start_next(listens, StartState::Aborted, succeeded) == StartState::Aborted,
{
}

/// A node comes to listen when its listener was set up, and to be registered when its
/// registration succeeded, at no other step, and no other node with it.
pub proof fn start_adds_the_node_alone(
    set: Set<Id>,
    id: Id,
    state: StartState,
    succeeded: bool,
    other: Id,
)
    ensures
        started_after(set, id, state, succeeded).contains(other) <==> set.contains(other) || (other
            == id && state == StartState::Listen && succeeded),
        registered_after(set, id, state, succeeded).contains(other) <==> set.contains(other) || (
        other == id && state == StartState::Register && succeeded),
{
}

/// The program is the registry if and only if its first argument says so; with any
/// other it runs one command, and with none it runs what is typed.
pub proof fn arguments_decide_the_start(args: Seq<Seq<char>>)
    ensures
        startup_for(args) == Startup::Serve <==> args.len() > 1 && args[1] == "serve"@,
        startup_for(args) == Startup::OneShot <==> args.len() > 1 && args[1] != "serve"@,
        startup_for(args) == Startup::Interactive <==> args.len() <= 1,
{
}

/// What a line asks for: nothing if it has no words; to leave or for help if it is
/// that one word, in whatever case; and else to run its words, all of them in their
/// order behind the name of the program.
pub proof fn words_decide_the_action(line: Seq<Seq<char>>, i: int)
    ensures
        ({
            let leaves = line.len() == 1 && (same_ignoring_ascii_case(line[0], "exit"@)
                || same_ignoring_ascii_case(line[0], "quit"@));
            let helps = line.len() == 1 && same_ignoring_ascii_case(line[0], "help"@);
            &&& action_for(line) is Skip <==> line.len() == 0
            &&& action_for(line) is Exit <==> leaves
            &&& action_for(line) is Help <==> helps && !leaves
            &&& line.len() > 0 && !leaves && !helps ==> (action_for(
                line,
            ) matches LineActionView::Run { argv } && argv.len() == line.len() + 1 && argv[0]
                == "WhatSpace"@ && (0 <= i < line.len() ==> argv[i + 1] == line[i]))
        }),
{
}

/// What a command on peers is seen to come to is what it comes to.
pub proof fn peer_outcome_view_is_complete(outcome: PeerOutcome)
    ensures
        match outcome {
            PeerOutcome::Peers { ids } => outcome@ == (PeerOutcomeView::Peers { ids: ids@ }),
            PeerOutcome::Query { ids } => outcome@ == (PeerOutcomeView::Query { ids: ids@ }),
            PeerOutcome::InvalidId { text } => outcome@ == (PeerOutcomeView::InvalidId {
                text: text@,
            }),
            PeerOutcome::NoSuchNode { name } => outcome@ == (PeerOutcomeView::NoSuchNode {
                name: name@,
            }),
            PeerOutcome::AlreadyKnown { id } => outcome@ == (PeerOutcomeView::AlreadyKnown { id }),
            PeerOutcome::Added { name, id } => outcome@ == (PeerOutcomeView::Added {
                name: name@,
                id,
            }),
            PeerOutcome::Removed { name, id } => outcome@ == (PeerOutcomeView::Removed {
                name: name@,
                id,
            }),
            PeerOutcome::NotKnown { name, id } => outcome@ == (PeerOutcomeView::NotKnown {
                name: name@,
                id,
            }),
        },
{
}

/// What a line is seen to ask for is what it asks for, and a list of nodes is seen as
/// each of them, in their order.
pub proof fn action_and_node_views_are_complete(action: LineAction, nodes: Seq<Node>, i: int)
    ensures
        match action {
            LineAction::Skip => action@ == LineActionView::Skip,
            LineAction::Exit => action@ == LineActionView::Exit,
            LineAction::Help => action@ == LineActionView::Help,
            LineAction::Run { argv } => action@ == (LineActionView::Run { argv: text_views(argv@) }),
        },
        node_views(nodes).len() == nodes.len(),
        0 <= i < nodes.len() ==> node_views(nodes)[i] == nodes[i]@,
{
}

} // verus!
