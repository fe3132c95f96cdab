//! The registry of nodes, and what passes between a node and its peers.

pub mod client;
pub mod laws;
pub mod server;
