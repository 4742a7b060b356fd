//! The heartbeat of a node: what it does when the time between two beats is over.

use vstd::prelude::*;

use crate::messages::{
    AppendEntriesInput, AppendEntriesOutput, LogAction, LogEntry, RequestVoteInput,
    RequestVoteOutput,
};
use crate::raft::error::HeartbeatError;
use crate::raft::node::RaftImpl;
use crate::raft::peer::{
    committed, peer_after, request_vote_input, wins, CandidateActions, LeaderActions, Peer,
    PeerConnections, PeerReply,
};
use crate::raft::state::{RaftNodeType, RaftStableData, RaftVolatileData};

verus! {

/// The milliseconds between two beats.
pub const HEARTBEAT_INTERVAL: u64 = 500;

/// The milliseconds that a node waits for its peers to be connected.
pub const STARTING_UP_PAUSE: u64 = 5000;

/// The shortest time, in milliseconds, that followers and candidates add to the interval.
pub const SHORTEST_PAUSE: u64 = 50;

/// The time, in milliseconds, that what followers and candidates add stays below.
pub const PAUSE_LIMIT: u64 = 150;

/// What is left to do for a beat.
#[derive(Debug)]
pub enum HeartbeatAction {
    /// Wait so many milliseconds.
    Wait(u64),
    /// Nothing.
    Rest,
    /// Send this to all peers and end the election with their answers.
    RequestVotes(RequestVoteInput),
    /// Send this to all peers and end the beat with their answers.
    ShareLog(AppendEntriesInput),
}

/// A number in a range, by chance.
///
/// Calls `rand::Rng::gen_range` on `rand::thread_rng()`, which gives a number from `low` on
/// and below `limit`. Which one is up to chance and not stated.
#[verifier::external_body]
fn random_below(low: u64, limit: u64) -> (number: u64)
    requires
        low < limit,
    ensures
        low <= number < limit,
{
    rand::Rng::gen_range(&mut rand::thread_rng(), low..limit)
}

impl RaftStableData {
    /// Whether a beat can be made: the term and the log have room to grow.
    pub open spec fn can_beat(self) -> bool {
        &&& self.wf()
        &&& match self.node_type {
            RaftNodeType::Follower(false) | RaftNodeType::Candidate => self.current_term
                < i64::MAX,
            RaftNodeType::Leader => self.log@.len() < i64::MAX,
            _ => true,
        }
    }

    /// Tells whether a beat can be made.
    pub fn check_beat(&self) -> (can: bool)
        requires
            self.wf(),
        ensures
            can <==> self.can_beat(),
    {
        match self.node_type {
            RaftNodeType::Follower(false) | RaftNodeType::Candidate => self.current_term
                < i64::MAX,
            RaftNodeType::Leader => (self.log.len() as i64) < i64::MAX,
            _ => true,
        }
    }

    /// Whether a beat of the node at `addr` leaves `action` to do and leads to `after`.
    pub open spec fn beats_to(
        self,
        addr: Seq<char>,
        commit_index: int,
        action: HeartbeatAction,
        after: RaftStableData,
    ) -> bool {
        match self.node_type {
            RaftNodeType::StartingUp => {
                &&& action == HeartbeatAction::Wait(STARTING_UP_PAUSE)
                &&& after == self
            },
            RaftNodeType::Follower(true) => {
                &&& action == HeartbeatAction::Rest
                &&& after == (RaftStableData { node_type: RaftNodeType::Follower(false), ..self })
            },
            RaftNodeType::Follower(false) | RaftNodeType::Candidate => {
                &&& after.is_candidacy_of(self, addr)
                &&& action matches HeartbeatAction::RequestVotes(input)
                &&& input.term == self.current_term + 1
                &&& input.candidate_id@ == addr
                &&& input.last_log_index == self.last_index()
                &&& input.last_log_term == self.last_term()
            },
            RaftNodeType::Leader => {
                &&& action matches HeartbeatAction::ShareLog(input)
                &&& input.leader_id@ == addr
                &&& input.term == self.current_term
                &&& input.entries@.len() == 1
                &&& input.entries@[0].action() == Some(LogAction::Noop)
                &&& input.entries@[0].value is None
                &&& input.entries@[0].term == self.current_term
                &&& input.prev_log_index == self.last_index()
                &&& input.prev_log_term == self.last_term()
                &&& input.leader_commit == commit_index
                &&& after.node_type == self.node_type
                &&& after.current_term == self.current_term
                &&& after.voted_for == self.voted_for
                &&& after.log@ == self.log@ + input.entries@
            },
        }
    }

    /// This data once an election is over: the winner leads, and who lost takes the vote back.
    pub open spec fn after_election(self, won: bool) -> RaftStableData {
        if won {
            RaftStableData { node_type: RaftNodeType::Leader, ..self }
        } else {
            RaftStableData { voted_for: None, ..self }
        }
    }

    /// This data once the node is a candidate for the next term.
    pub open spec fn is_candidacy_of(self, before: RaftStableData, addr: Seq<char>) -> bool {
        &&& self.node_type == RaftNodeType::Candidate
        &&& self.current_term == before.current_term + 1
        &&& self.voted_for matches Some(voted) && voted@ == addr
        &&& self.log == before.log
    }
}

impl RaftVolatileData {
    /// Whether these indices become `after` when the answers of the peers end the beat of a leader
    /// whose log ends at `last_index`, and the beat is a success or not.
    pub open spec fn ends_beat<C>(
        self,
        peers: Seq<Peer<C>>,
        replies: Seq<PeerReply<AppendEntriesOutput>>,
        last_index: int,
        success: bool,
        after: RaftVolatileData,
    ) -> bool {
        &&& success <==> committed(peers, replies, last_index, self.commit_index as int)
        &&& after.last_applied == self.last_applied
        &&& after.commit_index == if success {
            last_index
        } else {
            self.commit_index as int
        }
    }
}

impl<C> RaftImpl<C> {
    /// How many milliseconds a node waits in a beat before it acts. Followers and candidates
    /// wait a little longer, by chance.
    pub fn heartbeat_pause(node_type: RaftNodeType) -> (millis: u64)
        ensures
            match node_type {
                RaftNodeType::Follower(_) | RaftNodeType::Candidate => SHORTEST_PAUSE <= millis
                    < PAUSE_LIMIT,
                _ => millis == 0,
            },
            node_type is Follower || node_type is Candidate ==> 50 <= millis < 150,
    {
        match node_type {
            RaftNodeType::Follower(_) | RaftNodeType::Candidate => random_below(
                SHORTEST_PAUSE,
                PAUSE_LIMIT,
            ),
            _ => 0,
        }
    }

    /// Makes one beat. What it does depends on the part that the node plays.
    ///
    /// A follower that was pinged waits for the next ping. One that was not, and a
    /// candidate, votes for itself in a new term and asks for the votes of the others. A
    /// leader shares an entry that does nothing.
    pub fn heartbeat(
        addr: &String,
        peer_connections: &PeerConnections<C>,
        raft_stable_data: &mut RaftStableData,
        raft_volatile_data: &RaftVolatileData,
    ) -> (action: HeartbeatAction)
        requires
            old(raft_stable_data).can_beat(),
        ensures
            final(raft_stable_data).wf(),
            old(raft_stable_data).beats_to(
                addr@,
                raft_volatile_data.commit_index as int,
                action,
                *final(raft_stable_data),
            ),
    {
        match raft_stable_data.node_type {
            RaftNodeType::StartingUp => HeartbeatAction::Wait(STARTING_UP_PAUSE),
            RaftNodeType::Follower(true) => {
                raft_stable_data.node_type = RaftNodeType::Follower(false);
                HeartbeatAction::Rest
            },
            RaftNodeType::Follower(false) | RaftNodeType::Candidate => {
                raft_stable_data.node_type = RaftNodeType::Candidate;
                raft_stable_data.voted_for = Some(addr.clone());
                raft_stable_data.current_term = raft_stable_data.current_term + 1;
                HeartbeatAction::RequestVotes(request_vote_input(addr, raft_stable_data))
            },
            RaftNodeType::Leader => {
                let mut log_entries: Vec<LogEntry> = Vec::new();
                log_entries.push(LogEntry::noop(raft_stable_data.current_term));
                HeartbeatAction::ShareLog(
                    peer_connections.write_to_own_log(
                        addr,
                        raft_stable_data,
                        raft_volatile_data,
                        &log_entries,
                    ),
                )
            },
        }
    }

    /// Ends the election that a beat has started, given the answers of the peers. A node that
    /// lost stays a candidate and takes its vote back.
    pub fn conclude_election(
        peer_connections: &PeerConnections<C>,
        raft_stable_data: &mut RaftStableData,
        replies: &Vec<PeerReply<RequestVoteOutput>>,
    )
        requires
            peer_connections.answered(replies@),
        ensures
            *final(raft_stable_data) == old(raft_stable_data).after_election(
                wins(peer_connections.peers@, replies@),
            ),
    {
        if peer_connections.request_votes(replies).won_election {
            raft_stable_data.node_type = RaftNodeType::Leader;
        } else {
            raft_stable_data.voted_for = None;
        }
    }

    /// Ends the beat of a leader, given the answers of the peers. A leader that has lost the
    /// majority of its peers stops with an error.
    pub fn conclude_heartbeat(
        peer_connections: &mut PeerConnections<C>,
        raft_stable_data: &RaftStableData,
        raft_volatile_data: &mut RaftVolatileData,
        replies: &Vec<PeerReply<AppendEntriesOutput>>,
    ) -> (result: Result<(), HeartbeatError>)
        requires
            raft_stable_data.wf(),
            old(peer_connections).usable(replies@),
        ensures
            final(peer_connections).wf(),
            final(peer_connections).peers@.len() == old(peer_connections).peers@.len(),
            forall|i: int|
                0 <= i < replies@.len() ==> (#[trigger] final(peer_connections).peers@[i]) == (
                Peer {
                    addr: old(peer_connections).peers@[i].addr,
                    data: peer_after(
                        old(peer_connections).peers@[i].data,
                        replies@[i],
                        raft_stable_data.last_index(),
                    ),
                }),
            final(raft_volatile_data).last_applied == old(raft_volatile_data).last_applied,
            old(raft_volatile_data).ends_beat(
                old(peer_connections).peers@,
                replies@,
                raft_stable_data.last_index(),
                result is Ok,
                *final(raft_volatile_data),
            ),
            match result {
                Ok(()) => {
                    &&& committed(
                        old(peer_connections).peers@,
                        replies@,
                        raft_stable_data.last_index(),
                        old(raft_volatile_data).commit_index as int,
                    )
                    &&& final(raft_volatile_data).commit_index == raft_stable_data.last_index()
                },
                Err(HeartbeatError::FailedToPingPeers(error)) => {
                    &&& !committed(
                        old(peer_connections).peers@,
                        replies@,
                        raft_stable_data.last_index(),
                        old(raft_volatile_data).commit_index as int,
                    )
                    &&& final(raft_volatile_data).commit_index == old(
                        raft_volatile_data,
                    ).commit_index
                    &&& error.is_write_failure(
                        "Data not committed, not enough peers received updates"@,
                    )
                },
                Err(HeartbeatError::CustomError(_)) => false,
            },
    {
        match peer_connections.write_and_share_logs(raft_stable_data, raft_volatile_data, replies) {
            Ok(()) => Ok(()),
            Err(error) => Err(HeartbeatError::from(error)),
        }
    }
}

} // verus!
