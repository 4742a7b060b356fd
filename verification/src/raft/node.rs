//! A node of the cluster: its state and its answers to the other nodes.

use vstd::prelude::*;

use crate::messages::{
    AppendEntriesInput, AppendEntriesOutput, LogAction, LogEntry, PingInput, PingOutput,
    RequestVoteInput, RequestVoteOutput,
};
use crate::raft::data_store::{all_apply, replay, DataStore};
use crate::raft::follower::FollowerActions;
use crate::raft::peer::PeerConnections;
use crate::raft::state::{
    RaftNodeType, RaftStableData, RaftStableState, RaftVolatileData, RaftVolatileState,
};
use crate::text::{decimal, decimal_text};

verus! {

/// The address of a node: its text, by which the others know it, and its port.
#[derive(Debug)]
pub struct NodeAddr {
    pub text: String,
    pub port: u16,
}

/// A node with its data. `C` is the connection to a peer.
pub struct Database<C> {
    /// The address of this node.
    pub addr: NodeAddr,
    /// The other nodes, with what this node knows of them as a leader.
    pub peer_connections: PeerConnections<C>,
    /// What is to survive a restart.
    pub state: RaftStableState,
    /// What is not to survive a restart.
    pub volatile_state: RaftVolatileState,
    /// The data.
    pub data_store: DataStore,
}

impl<C> Database<C> {
    /// The log is not empty, and each peer is known once.
    pub open spec fn wf(self) -> bool {
        self.state.raft_data.wf() && self.peer_connections.wf()
    }

    /// What holds of a node at all times: nothing is applied that is not committed, nothing is
    /// committed that is not in the log, every entry that was applied can be applied, and the
    /// data is what the applied part of the log makes of an empty store.
    pub open spec fn sound(self) -> bool {
        let volatile = self.volatile_state.raft_data;
        &&& self.wf()
        &&& 0 <= volatile.last_applied <= volatile.commit_index < self.state.raft_data.log@.len()
        &&& all_apply(self.state.raft_data.log@, 0, volatile.last_applied + 1)
        &&& self.data_store@ == replay(
            Map::empty(),
            self.state.raft_data.log@,
            0,
            volatile.last_applied as int,
        )
    }

    /// A node without data that is not connected to any peer. The log starts with a
    /// placeholder, because both `commit_index` and `last_applied` start at its index.
    pub fn new(addr: NodeAddr) -> (node: Self)
        ensures
            node.sound(),
            node.addr == addr,
            node.peer_connections.peers@.len() == 0,
            node.state.raft_data.node_type == RaftNodeType::StartingUp,
            node.state.raft_data.current_term == 0,
            node.state.raft_data.voted_for is None,
            node.state.raft_data.log@.len() == 1,
            node.state.raft_data.log@[0].action() == Some(LogAction::Noop),
            node.state.raft_data.log@[0].value is None,
            node.state.raft_data.log@[0].term == -1,
            node.volatile_state.raft_data.commit_index == 0,
            node.volatile_state.raft_data.last_applied == 0,
            node.data_store@ == Map::<Seq<char>, Seq<char>>::empty(),
    {
        let mut log: Vec<LogEntry> = Vec::new();
        log.push(LogEntry::noop(-1));
        Database {
            addr,
            peer_connections: PeerConnections::new(),
            state: RaftStableState {
                raft_data: RaftStableData {
                    node_type: RaftNodeType::StartingUp,
                    current_term: 0,
                    voted_for: None,
                    log,
                },
            },
            volatile_state: RaftVolatileState {
                raft_data: RaftVolatileData { commit_index: 0, last_applied: 0 },
            },
            data_store: DataStore::new(),
        }
    }
}

/// The part of a node that talks to the other nodes.
pub struct RaftImpl<C> {
    /// The node that this serves.
    pub inner: Database<C>,
}

impl<C> RaftImpl<C> {
    /// Serves a node.
    pub fn new(inner: Database<C>) -> (raft: RaftImpl<C>)
        ensures
            raft.inner == inner,
    {
        RaftImpl { inner }
    }
}

/// Whether a log that ends at `index` with an entry of `term` is at least as up to date as
/// one that ends at `other_index` with an entry of `other_term`: the later term wins, and
/// among equal terms the longer log.
pub open spec fn at_least_as_up_to_date(
    term: int,
    index: int,
    other_term: int,
    other_index: int,
) -> bool {
    term > other_term || (term == other_term && index >= other_index)
}

/// Whether the log of the candidate is at least as up to date as that of this node.
pub fn candidate_more_up_to_date(
    raft_stable_state: &RaftStableData,
    input: &RequestVoteInput,
) -> (more: bool)
    requires
        raft_stable_state.wf(),
    ensures
        more <==> at_least_as_up_to_date(
            input.last_log_term as int,
            input.last_log_index as int,
            raft_stable_state.last_term(),
            raft_stable_state.last_index(),
        ),
{
    let last: usize = raft_stable_state.log.len() - 1;
    let last_log_term: i64 = raft_stable_state.log[last].term;
    if input.last_log_term == last_log_term {
        input.last_log_index >= last as i64
    } else {
        input.last_log_term > last_log_term
    }
}

impl RaftStableData {
    /// Whether the candidate gets the vote of this node: its term is not over, no other
    /// candidate has the vote, and its log is up to date.
    pub open spec fn grants_vote(self, input: RequestVoteInput) -> bool {
        &&& self.current_term <= input.term
        &&& self.voted_for matches Some(voted) ==> voted@ == input.candidate_id@
        &&& at_least_as_up_to_date(
            input.last_log_term as int,
            input.last_log_index as int,
            self.last_term(),
            self.last_index(),
        )
    }

    /// Whether the log holds the entry that precedes those of a leader. The placeholder at
    /// the start precedes in every log.
    pub open spec fn prev_matches(self, input: AppendEntriesInput) -> bool {
        input.prev_log_index == 0 || (0 <= input.prev_log_index < self.log@.len()
            && self.log@[input.prev_log_index as int].term == input.prev_log_term)
    }

    /// Whether the entries of a leader are taken: its term is not over, and they fit to the log.
    pub open spec fn accepts(self, input: AppendEntriesInput) -> bool {
        self.current_term <= input.term && self.prev_matches(input)
    }

    /// The term with which the entries of a leader are refused, if they are: the own term where
    /// that of the leader is over, and the term of the last entry where they do not fit to the log.
    pub fn refusal(&self, input: &AppendEntriesInput) -> (term: Option<i64>)
        requires
            self.wf(),
        ensures
            match term {
                None => self.accepts(*input),
                Some(term) => !self.accepts(*input) && term == if input.term < self.current_term {
                    self.current_term as int
                } else {
                    self.last_term()
                },
            },
    {
        if input.term < self.current_term {
            return Some(self.current_term);
        }
        let prev: i64 = input.prev_log_index;
        let prev_term_matches = prev == 0 || (0 <= prev && prev < self.log.len() as i64
            && self.log[prev as usize].term == input.prev_log_term);
        if prev_term_matches {
            None
        } else {
            Some(self.log[self.log.len() - 1].term)
        }
    }
}

impl<C> RaftImpl<C> {
    /// Answers a candidate.
    pub fn request_vote(&mut self, request: RequestVoteInput) -> (output: RequestVoteOutput)
        requires
            old(self).inner.wf(),
        ensures
            old(self).inner.answered_vote(request, output, final(self).inner),
    {
        let current_term: i64 = self.inner.state.raft_data.current_term;
        // The candidate asks for votes on an old term.
        if current_term > request.term {
            return RequestVoteOutput { term: current_term, vote_granted: false };
        }
        // Another candidate already has the vote.
        if let Some(voted) = &self.inner.state.raft_data.voted_for {
            if *voted != request.candidate_id {
                return RequestVoteOutput { term: current_term, vote_granted: false };
            }
        }
        // The candidate's log is out of date.
        if !candidate_more_up_to_date(&self.inner.state.raft_data, &request) {
            return RequestVoteOutput { term: current_term, vote_granted: false };
        }
        self.inner.state.raft_data.voted_for = Some(request.candidate_id);
        self.inner.state.raft_data.current_term = request.term;
        self.inner.state.raft_data.node_type = RaftNodeType::Follower(true);
        RequestVoteOutput { term: request.term, vote_granted: true }
    }

    /// Answers a leader. The error is the text of an internal failure.
    pub fn append_entries(&mut self, request: AppendEntriesInput) -> (result: Result<
        AppendEntriesOutput,
        String,
    >)
        requires
            old(self).inner.wf(),
            old(self).inner.state.raft_data.accepts(request) ==> old(self).inner.can_take(request),
        ensures
            final(self).inner.wf(),
            old(self).inner.answered_append(request, result, final(self).inner),
    {
        if let Some(term) = self.inner.state.raft_data.refusal(&request) {
            return Ok(AppendEntriesOutput { success: false, term });
        }
        self.inner.state.raft_data.node_type = RaftNodeType::Follower(true);
        match self.inner.make_update_from_peer(request) {
            Ok(output) => Ok(output),
            Err(_) => Err("Failed to update the state machine".to_owned()),
        }
    }

    /// Tells whether [`RaftImpl::append_entries`] can be called.
    pub fn check_append(&self, request: &AppendEntriesInput) -> (safe: bool)
        requires
            self.inner.wf(),
        ensures
            safe <==> (self.inner.state.raft_data.accepts(*request) ==> self.inner.can_take(
                *request,
            )),
    {
        self.inner.state.raft_data.refusal(request).is_some() || self.inner.check_take(request)
    }

    /// Answers a greeting with the own port.
    pub fn ping(&self, _request: &PingInput) -> (output: PingOutput)
        ensures
            output.responder@ == decimal_text(self.inner.addr.port as nat),
    {
        PingOutput { responder: decimal(self.inner.addr.port as u64) }
    }
}

impl<C> Database<C> {
    /// Whether this node gives `output` to a candidate and becomes `after`: a refusal changes
    /// nothing, and with the vote the node takes over the candidate's term.
    pub open spec fn answered_vote(
        self,
        request: RequestVoteInput,
        output: RequestVoteOutput,
        after: Self,
    ) -> bool {
        &&& output.vote_granted <==> self.state.raft_data.grants_vote(request)
        &&& output.term == if output.vote_granted {
            request.term
        } else {
            self.state.raft_data.current_term
        }
        &&& after == if output.vote_granted {
            Database {
                state: RaftStableState {
                    raft_data: RaftStableData {
                        node_type: RaftNodeType::Follower(true),
                        current_term: request.term,
                        voted_for: Some(request.candidate_id),
                        log: self.state.raft_data.log,
                    },
                },
                ..self
            }
        } else {
            self
        }
    }

    /// Whether this node gives `result` to a leader and becomes `after`: a refusal changes
    /// nothing, and what is accepted is a ping and an update.
    pub open spec fn answered_append(
        self,
        request: AppendEntriesInput,
        result: Result<AppendEntriesOutput, String>,
        after: Self,
    ) -> bool {
        if self.state.raft_data.accepts(request) {
            &&& self.pinged().updated(request, after)
            &&& match result {
                Ok(output) => after.is_current() && output == (AppendEntriesOutput {
                    success: true,
                    term: 0,
                }),
                Err(message) => !after.is_current() && message@
                    == "Failed to update the state machine"@,
            }
        } else {
            &&& after == self
            &&& result matches Ok(output)
            &&& !output.success
            &&& output.term == if request.term < self.state.raft_data.current_term {
                self.state.raft_data.current_term as int
            } else {
                self.state.raft_data.last_term()
            }
        }
    }

    /// This node once it knows that a leader is alive.
    pub open spec fn pinged(self) -> Self {
        Database {
            state: RaftStableState {
                raft_data: RaftStableData {
                    node_type: RaftNodeType::Follower(true),
                    ..self.state.raft_data
                },
            },
            ..self
        }
    }
}

} // verus!
