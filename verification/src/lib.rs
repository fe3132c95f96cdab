//! A delay-tolerant network of named nodes: bundles are stored, carried and
//! forwarded between nodes that learn of each other through a registry.
//!
//! The crate holds what the nodes, the registry and the command line decide.
//! Sockets, threads and the terminal stay with the program that drives it.

pub mod cli;
pub mod ident;
pub mod network;
pub mod routing;
mod sequences;
pub mod text;
pub mod time;
