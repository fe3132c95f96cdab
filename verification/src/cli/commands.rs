//! The commands.

use vstd::prelude::*;

verus! {

/// A command on nodes.
#[derive(Debug)]
pub enum NodeCommands {
    /// Lists every node.
    All,
    /// Starts a node and registers it with a server.
    Start { name: String, server: String },
    /// Takes a node off the registry.
    Stop { name: String },
    /// Reports on a node.
    Status { name: String },
    /// Sends a message from one node to another.
    Send { from: String, to: String, message: String, ttl: u64 },
    /// A command on the peers of a node.
    Peers { name: String, command: PeerCommands },
}

/// A command on the peers of a node.
#[derive(Debug)]
pub enum PeerCommands {
    /// Lists the peers that the node knows.
    ListPeers,
    /// Asks the registry which of some nodes are connected.
    GetConnectedPeers { ids: Vec<String> },
    /// Adds the node with a name to the peers.
    Add { name: String },
    /// Removes the node with a name from the peers.
    Remove { name: String },
}

} // verus!
