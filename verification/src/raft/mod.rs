//! The Raft node.

pub mod data_store;
pub mod election_laws;
pub mod error;
pub mod follower;
pub mod heartbeat;
pub mod laws;
pub mod leader;
pub mod node;
pub mod peer;
pub mod read_write;
pub mod replication_laws;
pub mod setup;
pub mod state;
pub mod storage_laws;
