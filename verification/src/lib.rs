//! RisDb: a small replicated key-value store.
//!
//! The crate holds the decisions of the database: the Raft node with its log,
//! elections and state machine, the HTTP frontend with its client, and the
//! command line tool that deploys a cluster on one machine. Sockets, timers,
//! files and terminals are left to the program that drives it: it performs what
//! the functions here return, and hands them what came of it.

pub mod database;
pub mod deploy;
pub mod frontend;
pub mod messages;
pub mod raft;
pub mod text;
