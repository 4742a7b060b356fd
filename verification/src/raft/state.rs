//! The state of a node.

use vstd::prelude::*;

use crate::messages::LogEntry;

verus! {

/// The part that a node plays in the cluster.
#[derive(Clone, Copy, Debug, PartialEq, Eq, Structural)]
pub enum RaftNodeType {
    /// Not all peers are connected yet.
    StartingUp,
    /// Follows a leader; the flag says whether it was pinged since its last heartbeat.
    Follower(bool),
    /// Asks the others for their votes.
    Candidate,
    /// Takes writes and shares them.
    Leader,
}

/// What a node has to remember across restarts.
#[derive(Debug)]
pub struct RaftStableData {
    pub node_type: RaftNodeType,
    pub current_term: i64,
    /// The candidate that has this node's vote.
    pub voted_for: Option<String>,
    /// The log. Its first entry is a placeholder that is never applied.
    pub log: Vec<LogEntry>,
}

impl RaftStableData {
    /// The log holds at least its placeholder, and its indices fit into an `i64`.
    pub open spec fn wf(self) -> bool {
        1 <= self.log@.len() <= i64::MAX
    }

    /// The index of the last entry.
    pub open spec fn last_index(self) -> int {
        self.log@.len() - 1
    }

    /// The term of the last entry.
    pub open spec fn last_term(self) -> int {
        self.log@.last().term as int
    }
}

/// The stable data of a node.
#[derive(Debug)]
pub struct RaftStableState {
    pub raft_data: RaftStableData,
}

/// What a node may forget when it restarts.
#[derive(Debug)]
pub struct RaftVolatileData {
    /// The last entry that is known to be committed.
    pub commit_index: i64,
    /// The last entry that was applied to the data store.
    pub last_applied: i64,
}

/// The volatile data of a node.
#[derive(Debug)]
pub struct RaftVolatileState {
    pub raft_data: RaftVolatileData,
}

} // verus!
