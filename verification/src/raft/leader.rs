//! A leader that follows each peer by its own indices. A peer gets the new entries behind
//! whatever it is known to hold, and its indices grow by as many as it took.
//!
//! Terms are not compared here: the messages carry the term zero.

use vstd::prelude::*;

use crate::messages::{clone_entries, AppendEntriesInput, AppendEntriesOutput, LogEntry};
use crate::raft::error::{LeaderError, StateMachineError};
use crate::raft::node::RaftImpl;
use crate::raft::peer::{
    acknowledged, append_to_log, is_least_ok, is_majority, least_ok, Peer, PeerData,
    PeerReply, ProposeToPeersResult, RaftLeaderState,
};

verus! {

/// Whether the indices of a reachable peer have room for that many more entries.
pub open spec fn can_advance<C>(peer: PeerData<C>, entries: int) -> bool {
    peer.reachable() ==> {
        &&& peer.leader_state->0.next_index > i64::MIN
        &&& peer.leader_state->0.next_index + entries <= i64::MAX
        &&& peer.leader_state->0.match_index + entries <= i64::MAX
    }
}

/// What a leader knows of a peer after its answer to that many entries.
pub open spec fn peer_advanced<C>(
    peer: PeerData<C>,
    reply: PeerReply<AppendEntriesOutput>,
    entries: int,
) -> PeerData<C> {
    if acknowledged(peer, reply) {
        PeerData {
            connection: peer.connection,
            leader_state: Some(
                RaftLeaderState {
                    next_index: (peer.leader_state->0.next_index + entries) as i64,
                    match_index: (peer.leader_state->0.match_index + entries) as i64,
                },
            ),
        }
    } else {
        peer
    }
}

/// Whether a peer is counted: it took the entries, and they bring it up to the commit index.
pub open spec fn counted<C>(
    peer: PeerData<C>,
    reply: PeerReply<AppendEntriesOutput>,
    entries: int,
    commit_index: int,
) -> bool {
    acknowledged(peer, reply) && peer.leader_state->0.match_index + entries >= commit_index
}

/// How many of the first `n` peers are counted.
pub open spec fn count_advanced<C>(
    peers: Seq<Peer<C>>,
    replies: Seq<PeerReply<AppendEntriesOutput>>,
    entries: int,
    commit_index: int,
    n: int,
) -> int
    decreases n,
{
    if n <= 0 {
        0
    } else {
        count_advanced(peers, replies, entries, commit_index, n - 1) + if counted(
            peers[n - 1].data,
            replies[n - 1],
            entries,
            commit_index,
        ) {
            1int
        } else {
            0int
        }
    }
}

/// Whether `result` is what a leader gets from the peer at `addr`.
pub open spec fn is_advance_result<C>(
    result: Result<i64, LeaderError>,
    addr: Seq<char>,
    peer: PeerData<C>,
    reply: PeerReply<AppendEntriesOutput>,
    entries: int,
) -> bool {
    if !peer.reachable() {
        result matches Err(LeaderError::NoLeaderStateFound(message)) && message@
            == "No leader state found"@
    } else if !acknowledged(peer, reply) {
        result matches Err(LeaderError::FailedToAppendEntries(failed)) && failed@ == addr
    } else {
        result == Ok::<i64, LeaderError>((peer.leader_state->0.match_index + entries) as i64)
    }
}

/// Whether `least` is the smallest index that a peer has reached by taking the entries.
pub open spec fn is_least_match<C>(
    peers: Seq<Peer<C>>,
    replies: Seq<PeerReply<AppendEntriesOutput>>,
    entries: int,
    least: int,
) -> bool {
    &&& exists|i: int|
        0 <= i < replies.len() && acknowledged(#[trigger] peers[i].data, replies[i])
            && peers[i].data.leader_state->0.match_index + entries == least
    &&& forall|i: int|
        0 <= i < replies.len() && acknowledged(#[trigger] peers[i].data, replies[i]) ==> least
            <= peers[i].data.leader_state->0.match_index + entries
}

impl<C> RaftImpl<C> {
    /// One reply for each peer, and the indices have room.
    pub open spec fn can_share(
        self,
        replies: Seq<PeerReply<AppendEntriesOutput>>,
        entries: int,
    ) -> bool {
        let peers = self.inner.peer_connections.peers@;
        &&& self.inner.wf()
        &&& replies.len() == peers.len()
        &&& forall|i: int|
            0 <= i < replies.len() ==> can_advance((#[trigger] peers[i]).data, entries)
    }

    /// Whether `after` is this node, with what it learned of its peers.
    pub open spec fn advanced(
        self,
        replies: Seq<PeerReply<AppendEntriesOutput>>,
        entries: int,
        after: Self,
    ) -> bool {
        let peers = self.inner.peer_connections.peers@;
        &&& after.inner.wf()
        &&& after.inner.addr == self.inner.addr
        &&& after.inner.state == self.inner.state
        &&& after.inner.data_store == self.inner.data_store
        &&& after.inner.peer_connections.peers@.len() == peers.len()
        &&& forall|i: int|
            0 <= i < replies.len() ==> (#[trigger] after.inner.peer_connections.peers@[i]) == (
            Peer {
                addr: peers[i].addr,
                data: peer_advanced(peers[i].data, replies[i], entries),
            })
    }

    /// Whether the indices of this node become those of `after` when the answers of the peers end the
    /// sharing of entries, and it is a success or not.
    pub open spec fn shared(
        self,
        replies: Seq<PeerReply<AppendEntriesOutput>>,
        entries: int,
        success: bool,
        after: Self,
    ) -> bool {
        let peers = self.inner.peer_connections.peers@;
        let before = self.inner.volatile_state.raft_data;
        let volatile = after.inner.volatile_state.raft_data;
        &&& success <==> {
            &&& exists|i: int|
                0 <= i < replies.len() && acknowledged(#[trigger] peers[i].data, replies[i])
            &&& is_majority(
                1 + count_advanced(
                    peers,
                    replies,
                    entries,
                    before.commit_index as int,
                    replies.len() as int,
                ),
                replies.len() as int,
            )
        }
        &&& volatile.last_applied == before.last_applied
        &&& if success {
            is_least_match(peers, replies, entries, volatile.commit_index as int)
        } else {
            volatile.commit_index == before.commit_index
        }
    }

    /// Adds entries to the own log before they are shared.
    pub fn write_to_own_log(&mut self, log_entries: &Vec<LogEntry>)
        requires
            old(self).inner.wf(),
            old(self).inner.state.raft_data.log@.len() + log_entries@.len() <= i64::MAX,
        ensures
            final(self).inner.wf(),
            final(self).inner.state.raft_data.log@ == old(self).inner.state.raft_data.log@
                + log_entries@,
            final(self).inner.state.raft_data.node_type
                == old(self).inner.state.raft_data.node_type,
            final(self).inner.state.raft_data.current_term
                == old(self).inner.state.raft_data.current_term,
            final(self).inner.state.raft_data.voted_for
                == old(self).inner.state.raft_data.voted_for,
            final(self).inner.addr == old(self).inner.addr,
            final(self).inner.peer_connections == old(self).inner.peer_connections,
            final(self).inner.volatile_state == old(self).inner.volatile_state,
            final(self).inner.data_store == old(self).inner.data_store,
    {
        append_to_log(&mut self.inner.state.raft_data, log_entries);
    }

    /// The message that carries entries to a peer with the given state.
    pub fn append_entries_message(
        &self,
        peer_leader_state: &RaftLeaderState,
        curr_commit_index: i64,
        log_entries: &Vec<LogEntry>,
    ) -> (input: AppendEntriesInput)
        requires
            peer_leader_state.next_index > i64::MIN,
        ensures
            input.leader_id@ == self.inner.addr.text@,
            input.term == 0,
            input.entries@ == log_entries@,
            input.prev_log_index == peer_leader_state.next_index - 1,
            input.prev_log_term == 0,
            input.leader_commit == curr_commit_index,
    {
        AppendEntriesInput {
            leader_id: self.inner.addr.text.clone(),
            term: 0,
            entries: clone_entries(log_entries),
            prev_log_index: peer_leader_state.next_index - 1,
            prev_log_term: 0,
            leader_commit: curr_commit_index,
        }
    }

    /// Checks whether the entries reached enough nodes to be committed, given the answers
    /// of the peers.
    ///
    /// `Ok(())`: a majority of the servers overall, this one included, is up to date. The
    /// commit index becomes the smallest index that a peer has reached.
    /// `Err(_)`: it is not; the commit index stays where it was.
    pub fn write_and_share_logs(
        &mut self,
        log_entries: &Vec<LogEntry>,
        replies: &Vec<PeerReply<AppendEntriesOutput>>,
    ) -> (result: Result<(), StateMachineError>)
        requires
            old(self).can_share(replies@, log_entries@.len() as int),
        ensures
            old(self).advanced(replies@, log_entries@.len() as int, *final(self)),
            old(self).shared(replies@, log_entries@.len() as int, result is Ok, *final(self)),
            final(self).inner.volatile_state.raft_data.last_applied
                == old(self).inner.volatile_state.raft_data.last_applied,
            ({
                let peers = old(self).inner.peer_connections.peers@;
                let entries = log_entries@.len() as int;
                let commit_index = old(self).inner.volatile_state.raft_data.commit_index;
                let enough = (exists|i: int|
                    0 <= i < replies@.len() && acknowledged(#[trigger] peers[i].data, replies@[i]))
                    && is_majority(
                    1 + count_advanced(
                        peers,
                        replies@,
                        entries,
                        commit_index as int,
                        replies@.len() as int,
                    ),
                    replies@.len() as int,
                );
                match result {
                    Ok(()) => enough && is_least_match(
                        peers,
                        replies@,
                        entries,
                        final(self).inner.volatile_state.raft_data.commit_index as int,
                    ),
                    Err(error) => !enough && error.is_write_failure(
                        "Data not committed, not enough peers received updates"@,
                    ) && final(self).inner.volatile_state == old(self).inner.volatile_state,
                }
            }),
    {
        let ghost peers = self.inner.peer_connections.peers@;
        let commit_index: i64 = self.inner.volatile_state.raft_data.commit_index;
        let shared = self.share_to_peers(commit_index, log_entries, replies);
        let half: i64 = (self.inner.peer_connections.peers.len() as i64 + 1) / 2;
        let index = self.calculate_new_commit_index(
            shared.count_communicated,
            &shared.request_append_entries_results,
        );
        let ghost results = shared.request_append_entries_results@;
        proof {
            assert forall|i: int|
                0 <= i < replies@.len() && acknowledged(
                    #[trigger] peers[i].data,
                    replies@[i],
                ) implies results[i] is Ok by {
                assert(is_advance_result(
                    results[i],
                    peers[i].addr@,
                    peers[i].data,
                    replies@[i],
                    log_entries@.len() as int,
                ));
            }
            assert forall|i: int|
                0 <= i < replies@.len() && (
                #[trigger] results[i]) is Ok implies acknowledged(peers[i].data, replies@[i]) by {}
        }
        if let Ok(min_new_commit_index) = index {
            if shared.count_communicated > half {
                self.inner.volatile_state.raft_data.commit_index = min_new_commit_index;
                return Ok(());
            }
        }
        Err(
            StateMachineError::FailedToWriteToLogs(
                "Data not committed, not enough peers received updates".to_owned(),
            ),
        )
    }

    /// Takes the answers of all peers.
    pub fn share_to_peers(
        &mut self,
        curr_commit_index: i64,
        log_entries: &Vec<LogEntry>,
        replies: &Vec<PeerReply<AppendEntriesOutput>>,
    ) -> (result: ProposeToPeersResult)
        requires
            old(self).can_share(replies@, log_entries@.len() as int),
        ensures
            old(self).advanced(replies@, log_entries@.len() as int, *final(self)),
            final(self).inner.volatile_state == old(self).inner.volatile_state,
            result.count_communicated == 1 + count_advanced(
                old(self).inner.peer_connections.peers@,
                replies@,
                log_entries@.len() as int,
                curr_commit_index as int,
                replies@.len() as int,
            ),
            result.request_append_entries_results@.len() == replies@.len(),
            forall|i: int|
                0 <= i < replies@.len() ==> is_advance_result(
                    #[trigger] result.request_append_entries_results@[i],
                    old(self).inner.peer_connections.peers@[i].addr@,
                    old(self).inner.peer_connections.peers@[i].data,
                    replies@[i],
                    log_entries@.len() as int,
                ),
    {
        let ghost before = self.inner.peer_connections.peers@;
        let ghost entries = log_entries@.len() as int;
        let mut count_communicated: i64 = 1;
        let mut results: Vec<Result<i64, LeaderError>> = Vec::new();
        let mut i: usize = 0;
        while i < replies.len()
            invariant
                old(self).can_share(replies@, entries),
                entries == log_entries@.len(),
                before == old(self).inner.peer_connections.peers@,
                i <= replies@.len(),
                self.inner.addr == old(self).inner.addr,
                self.inner.state == old(self).inner.state,
                self.inner.volatile_state == old(self).inner.volatile_state,
                self.inner.data_store == old(self).inner.data_store,
                self.inner.peer_connections.peers@.len() == before.len() == replies@.len(),
                results@.len() == i,
                count_communicated == 1 + count_advanced(
                    before,
                    replies@,
                    entries,
                    curr_commit_index as int,
                    i as int,
                ),
                1 <= count_communicated <= 1 + i,
                forall|j: int|
                    0 <= j < i ==> (#[trigger] self.inner.peer_connections.peers@[j]) == (Peer {
                        addr: before[j].addr,
                        data: peer_advanced(before[j].data, replies@[j], entries),
                    }),
                forall|j: int|
                    i <= j < before.len() ==> (#[trigger] self.inner.peer_connections.peers@[j])
                        == before[j],
                forall|j: int|
                    0 <= j < i ==> is_advance_result(
                        #[trigger] results@[j],
                        before[j].addr@,
                        before[j].data,
                        replies@[j],
                        entries,
                    ),
            decreases replies.len() - i,
        {
            assert(can_advance(before[i as int].data, entries));
            let peer = &mut self.inner.peer_connections.peers[i];
            let result = Self::request_append_entries_peer(
                &mut count_communicated,
                &peer.addr,
                &mut peer.data,
                curr_commit_index,
                log_entries,
                &replies[i],
            );
            results.push(result);
            i = i + 1;
        }
        ProposeToPeersResult { count_communicated, request_append_entries_results: results }
    }

    /// The new commit index, if enough peers were reached: the smallest index among those
    /// that took the entries.
    pub fn calculate_new_commit_index(
        &self,
        count_communicated: i64,
        results: &Vec<Result<i64, LeaderError>>,
    ) -> (result: Result<i64, LeaderError>)
        ensures
            ({
                let half = self.inner.peer_connections.peers@.len() as int / 2;
                match result {
                    Ok(least) => count_communicated >= half && is_least_ok(results@, least),
                    Err(LeaderError::NoMinimumPeerCommitIndexFound(message)) => {
                        &&& count_communicated >= half
                        &&& forall|i: int|
                            0 <= i < results@.len() ==> (#[trigger] results@[i]) is Err
                        &&& message@
                            == "Failed to get minimum peer commit index after successful communication to the majority"@
                    },
                    Err(LeaderError::NotEnoughPeersUpdated(message)) => {
                        &&& count_communicated < half
                        &&& message@ == "Not enough peers were updated to get a new commit index"@
                    },
                    Err(_) => false,
                }
            }),
    {
        if count_communicated >= (self.inner.peer_connections.peers.len() / 2) as i64 {
            match least_ok(results) {
                Some(least) => Ok(least),
                None => Err(
                    LeaderError::NoMinimumPeerCommitIndexFound(
                        "Failed to get minimum peer commit index after successful communication to the majority".to_owned(),
                    ),
                ),
            }
        } else {
            Err(
                LeaderError::NotEnoughPeersUpdated(
                    "Not enough peers were updated to get a new commit index".to_owned(),
                ),
            )
        }
    }

    /// Takes the answer of one peer.
    ///
    /// `Ok`: the peer took the entries; the index that it has reached.
    /// `Err`: it did not, with its address where it was asked; nothing changes.
    pub fn request_append_entries_peer(
        count_communicated: &mut i64,
        peer_addr: &String,
        peer_data: &mut PeerData<C>,
        curr_commit_index: i64,
        log_entries: &Vec<LogEntry>,
        reply: &PeerReply<AppendEntriesOutput>,
    ) -> (result: Result<i64, LeaderError>)
        requires
            *old(count_communicated) < i64::MAX,
            can_advance(*old(peer_data), log_entries@.len() as int),
        ensures
            *final(peer_data) == peer_advanced(
                *old(peer_data),
                *reply,
                log_entries@.len() as int,
            ),
            is_advance_result(
                result,
                peer_addr@,
                *old(peer_data),
                *reply,
                log_entries@.len() as int,
            ),
            *final(count_communicated) == *old(count_communicated) + if counted(
                *old(peer_data),
                *reply,
                log_entries@.len() as int,
                curr_commit_index as int,
            ) {
                1int
            } else {
                0int
            },
    {
        let state = match (&peer_data.leader_state, &peer_data.connection) {
            (Some(state), Some(_)) => *state,
            _ => {
                return Err(LeaderError::NoLeaderStateFound("No leader state found".to_owned()));
            },
        };
        let took = match reply {
            PeerReply::Replied(output) => output.success,
            PeerReply::Unreached => false,
        };
        if !took {
            return Err(LeaderError::FailedToAppendEntries(peer_addr.clone()));
        }
        let taken: i128 = log_entries.len() as i128;
        let next_index: i64 = (state.next_index as i128 + taken) as i64;
        let match_index: i64 = (state.match_index as i128 + taken) as i64;
        peer_data.leader_state = Some(RaftLeaderState { next_index, match_index });
        if match_index >= curr_commit_index {
            *count_communicated = *count_communicated + 1;
        }
        Ok(match_index)
    }
}

} // verus!
