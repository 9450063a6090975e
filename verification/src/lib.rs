//! Subscription and notification engine of a world indexer: which clients
//! hear about which entity changes, and how requests and failures cross the
//! RPC boundary.

pub mod error;
pub mod felt;
pub mod laws;
pub mod plugin;
pub mod server;
pub mod service;
pub mod subscription;
pub mod types;
