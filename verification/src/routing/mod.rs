//! Bundles and how a node stores, carries and forwards them.

pub mod ack;
pub mod bundle_manager;
pub mod engine;
pub mod laws;
pub mod model;
pub mod scf;
pub mod storage;
