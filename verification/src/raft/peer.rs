//! The peers of a node, and what it asks of them as a leader and as a candidate.
//!
//! The caller sends the messages. It hands the answers back as one
//! [`PeerReply`] per peer, in the order of [`PeerConnections::peers`].

use vstd::prelude::*;

use crate::messages::{
    clone_entries, AppendEntriesInput, AppendEntriesOutput, LogEntry, RequestVoteInput,
    RequestVoteOutput,
};
use crate::raft::error::{CandidateError, LeaderError, StateMachineError};
use crate::raft::state::{RaftStableData, RaftVolatileData};
use crate::text::{joined, quoted, quoted_text};

verus! {

/// How far a leader knows a peer's log to reach.
#[derive(Clone, Copy, Debug, PartialEq, Eq, Structural)]
pub struct RaftLeaderState {
    pub next_index: i64,
    pub match_index: i64,
}

/// What a node knows of a peer. `C` is the connection to it.
#[derive(Debug)]
pub struct PeerData<C> {
    pub connection: Option<C>,
    pub leader_state: Option<RaftLeaderState>,
}

impl<C> PeerData<C> {
    /// Whether a leader can send entries to this peer.
    pub open spec fn reachable(self) -> bool {
        self.connection is Some && self.leader_state is Some
    }
}

/// A peer with its address.
#[derive(Debug)]
pub struct Peer<C> {
    pub addr: String,
    pub data: PeerData<C>,
}

/// The peers of a node, each address once.
#[derive(Debug)]
pub struct PeerConnections<C> {
    pub peers: Vec<Peer<C>>,
}

/// What came of a message to a peer.
#[derive(Debug)]
pub enum PeerReply<T> {
    /// The peer answered.
    Replied(T),
    /// The message was not sent, it failed, or the answer took too long.
    Unreached,
}

/// What came of sharing entries: how many nodes hold them, and each peer's result.
#[derive(Debug)]
pub struct ProposeToPeersResult {
    pub count_communicated: i64,
    pub request_append_entries_results: Vec<Result<i64, LeaderError>>,
}

/// The result of an election.
#[derive(Debug)]
pub struct RequestVotesResult {
    pub won_election: bool,
}

impl<C> PeerConnections<C> {
    /// Each address occurs once, and the cluster can be counted in an `i64`.
    pub open spec fn wf(self) -> bool {
        &&& self.peers@.len() < i64::MAX
        &&& forall|i: int, j: int|
            0 <= i < j < self.peers@.len() ==> (#[trigger] self.peers@[i]).addr@ != (
            #[trigger] self.peers@[j]).addr@
    }

    /// Whether there is a peer at the address.
    pub open spec fn knows(self, addr: Seq<char>) -> bool {
        exists|i: int| 0 <= i < self.peers@.len() && (#[trigger] self.peers@[i]).addr@ == addr
    }

    /// No peers.
    pub fn new() -> (connections: Self)
        ensures
            connections.wf(),
            connections.peers@.len() == 0,
    {
        PeerConnections { peers: Vec::new() }
    }

    /// Tells whether there is room for one more peer.
    pub fn check_room(&self) -> (has: bool)
        requires
            self.wf(),
        ensures
            has <==> self.has_room(),
    {
        self.peers.len() as i64 + 1 < i64::MAX
    }

    /// How many peers acknowledged the entries that were sent, if there is one reply for each
    /// peer, see [`LeaderActions::usable`].
    pub fn count_usable(&self, replies: &Vec<PeerReply<AppendEntriesOutput>>) -> (count: Option<
        usize,
    >)
        requires
            self.wf(),
        ensures
            match count {
                Some(count) => self.usable(replies@) && count == count_acknowledged(
                    self.peers@,
                    replies@,
                    replies@.len() as int,
                ) && count <= replies@.len(),
                None => !self.usable(replies@),
            },
    {
        if replies.len() != self.peers.len() {
            return None;
        }
        let mut count: usize = 0;
        let mut i: usize = 0;
        while i < replies.len()
            invariant
                self.wf(),
                replies@.len() == self.peers@.len(),
                i <= replies@.len(),
                count <= i,
                count == count_acknowledged(self.peers@, replies@, i as int),
            decreases replies.len() - i,
        {
            let data = &self.peers[i].data;
            if data.connection.is_some() && data.leader_state.is_some() {
                match &replies[i] {
                    PeerReply::Replied(output) if output.success => {
                        count = count + 1;
                    },
                    _ => {},
                }
            }
            i = i + 1;
        }
        Some(count)
    }

    /// The position of the peer at the address.
    pub fn find(&self, addr: &String) -> (position: Option<usize>)
        ensures
            match position {
                Some(i) => i < self.peers@.len() && self.peers@[i as int].addr@ == addr@,
                None => !self.knows(addr@),
            },
    {
        let mut i: usize = 0;
        while i < self.peers.len()
            invariant
                i <= self.peers@.len(),
                forall|j: int| 0 <= j < i ==> (#[trigger] self.peers@[j]).addr@ != addr@,
            decreases self.peers.len() - i,
        {
            if self.peers[i].addr == *addr {
                return Some(i);
            }
            i = i + 1;
        }
        None
    }
}

/// Setting up the connections to the peers.
pub trait PeerSetup<C> {
    /// What holds of the connections between any two calls.
    spec fn ready(&self) -> bool;

    /// Whether there is room for one more peer.
    spec fn has_room(&self) -> bool;

    /// Remembers the connection to a peer that was just made.
    fn handle_client_connection(&mut self, peer_addr: String, client: C)
        requires
            old(self).ready(),
            old(self).has_room(),
    ;
}

/// What a node knows of a peer that it has just connected to.
pub open spec fn fresh_peer<C>(client: C) -> PeerData<C> {
    PeerData {
        connection: Some(client),
        leader_state: Some(RaftLeaderState { next_index: 1, match_index: 0 }),
    }
}

impl<C> PeerSetup<C> for PeerConnections<C> {
    open spec fn ready(&self) -> bool {
        self.wf()
    }

    open spec fn has_room(&self) -> bool {
        self.peers@.len() + 1 < i64::MAX
    }

    fn handle_client_connection(&mut self, peer_addr: String, client: C)
        ensures
            final(self).wf(),
            forall|i: int|
                0 <= i < old(self).peers@.len() && (#[trigger] old(self).peers@[i]).addr@
                    == peer_addr@ ==> final(self).peers@ == old(self).peers@.update(
                    i,
                    Peer { addr: old(self).peers@[i].addr, data: fresh_peer(client) },
                ),
            !old(self).knows(peer_addr@) ==> final(self).peers@ == old(self).peers@.push(
                Peer { addr: peer_addr, data: fresh_peer(client) },
            ),
    {
        let data = PeerData {
            connection: Some(client),
            leader_state: Some(RaftLeaderState { next_index: 1, match_index: 0 }),
        };
        match self.find(&peer_addr) {
            Some(i) => {
                let addr = self.peers[i].addr.clone();
                self.peers[i] = Peer { addr, data };
            },
            None => {
                self.peers.push(Peer { addr: peer_addr, data });
            },
        }
    }
}

/// The message that carries the last entries of a leader's log to its peers.
pub fn append_entries_input(
    addr: &String,
    raft_stable_data: &RaftStableData,
    curr_commit_index: i64,
    log_entries: &Vec<LogEntry>,
) -> (input: AppendEntriesInput)
    requires
        raft_stable_data.wf(),
        log_entries@.len() < raft_stable_data.log@.len(),
    ensures
        input.leader_id@ == addr@,
        input.term == raft_stable_data.current_term,
        input.entries@ == log_entries@,
        input.prev_log_index == raft_stable_data.last_index() - log_entries@.len(),
        input.prev_log_term == raft_stable_data.log@[input.prev_log_index as int].term,
        input.leader_commit == curr_commit_index,
{
    let prev: usize = raft_stable_data.log.len() - 1 - log_entries.len();
    AppendEntriesInput {
        leader_id: addr.clone(),
        term: raft_stable_data.current_term,
        entries: clone_entries(log_entries),
        prev_log_index: prev as i64,
        prev_log_term: raft_stable_data.log[prev].term,
        leader_commit: curr_commit_index,
    }
}

/// Whether a peer is known to hold the entries that were sent.
pub open spec fn acknowledged<C>(
    peer: PeerData<C>,
    reply: PeerReply<AppendEntriesOutput>,
) -> bool {
    peer.reachable() && (reply matches PeerReply::Replied(output) && output.success)
}

/// What a leader knows of a peer after its answer.
pub open spec fn peer_after<C>(
    peer: PeerData<C>,
    reply: PeerReply<AppendEntriesOutput>,
    last_index: int,
) -> PeerData<C> {
    if acknowledged(peer, reply) {
        PeerData {
            connection: peer.connection,
            leader_state: Some(
                RaftLeaderState {
                    next_index: (last_index + 1) as i64,
                    match_index: last_index as i64,
                },
            ),
        }
    } else {
        peer
    }
}

/// Whether `result` is what a leader gets from the peer at `addr`. A peer that refused the entries
/// counts like one that could not be reached.
pub open spec fn is_append_result<C>(
    result: Result<i64, LeaderError>,
    addr: Seq<char>,
    peer: PeerData<C>,
    reply: PeerReply<AppendEntriesOutput>,
    last_index: int,
) -> bool {
    if !peer.reachable() {
        result matches Err(LeaderError::NoLeaderStateFound(message)) && message@
            == "No leader state found"@
    } else if !acknowledged(peer, reply) {
        result matches Err(LeaderError::FailedToAppendEntries(failed)) && failed@ == addr
    } else {
        result == Ok::<i64, LeaderError>(last_index as i64)
    }
}

/// How many of the first `n` peers acknowledged the entries.
pub open spec fn count_acknowledged<C>(
    peers: Seq<Peer<C>>,
    replies: Seq<PeerReply<AppendEntriesOutput>>,
    n: int,
) -> int
    decreases n,
{
    if n <= 0 {
        0
    } else {
        count_acknowledged(peers, replies, n - 1) + if acknowledged(
            peers[n - 1].data,
            replies[n - 1],
        ) {
            1int
        } else {
            0int
        }
    }
}

/// Whether `count` nodes are more than half of a cluster with `peers` nodes beside this one.
pub open spec fn is_majority(count: int, peers: int) -> bool {
    2 * count > peers + 1
}

/// Whether `least` is the smallest index among the results.
pub open spec fn is_least_ok(results: Seq<Result<i64, LeaderError>>, least: i64) -> bool {
    &&& exists|i: int|
        0 <= i < results.len() && #[trigger] results[i] == Ok::<i64, LeaderError>(least)
    &&& forall|i: int|
        0 <= i < results.len() && (#[trigger] results[i]) is Ok ==> least <= results[i]->Ok_0
}

/// What a leader does.
pub trait LeaderActions<C> {
    /// One reply for each peer.
    spec fn usable(&self, replies: Seq<PeerReply<AppendEntriesOutput>>) -> bool;

    /// Adds the entries to the leader's own log, and returns the message that
    /// carries them to the peers.
    fn write_to_own_log(
        &self,
        addr: &String,
        stable_data: &mut RaftStableData,
        volatile_data: &RaftVolatileData,
        log_entries: &Vec<LogEntry>,
    ) -> (input: AppendEntriesInput)
        requires
            old(stable_data).wf(),
            old(stable_data).log@.len() + log_entries@.len() <= i64::MAX,
    ;

    /// Checks whether the entries at the end of the log reached enough nodes to be
    /// committed, given the answers of the peers.
    ///
    /// `Ok(())`: a majority of the servers overall, this one included, holds them.
    /// `Err(_)`: it does not; the commit index stays where it was.
    fn write_and_share_logs(
        &mut self,
        stable_data: &RaftStableData,
        volatile_data: &mut RaftVolatileData,
        replies: &Vec<PeerReply<AppendEntriesOutput>>,
    ) -> (result: Result<(), StateMachineError>)
        requires
            stable_data.wf(),
            old(self).usable(replies@),
    ;

    /// Takes the answers of all peers.
    fn share_to_peers(
        &mut self,
        raft_stable_data: &RaftStableData,
        curr_commit_index: i64,
        replies: &Vec<PeerReply<AppendEntriesOutput>>,
    ) -> (result: ProposeToPeersResult)
        requires
            raft_stable_data.wf(),
            old(self).usable(replies@),
    ;

    /// The new commit index, if enough peers were reached: the smallest index among
    /// those that took the entries.
    fn calculate_new_commit_index(
        &self,
        count_communicated: i64,
        results: &Vec<Result<i64, LeaderError>>,
    ) -> (result: Result<i64, LeaderError>);

    /// Takes the answer of one peer.
    ///
    /// `Ok`: the peer took the entries; the index that it has reached.
    /// `Err`: it did not, with its address where it was asked; nothing changes.
    fn request_append_entries_peer(
        raft_stable_data: &RaftStableData,
        count_communicated: &mut i64,
        peer_addr: &String,
        peer_data: &mut PeerData<C>,
        curr_commit_index: i64,
        reply: &PeerReply<AppendEntriesOutput>,
    ) -> (result: Result<i64, LeaderError>)
        requires
            raft_stable_data.wf(),
            *old(count_communicated) < i64::MAX,
    ;
}

impl<C> LeaderActions<C> for PeerConnections<C> {
    open spec fn usable(&self, replies: Seq<PeerReply<AppendEntriesOutput>>) -> bool {
        self.wf() && replies.len() == self.peers@.len()
    }

    fn write_to_own_log(
        &self,
        addr: &String,
        stable_data: &mut RaftStableData,
        volatile_data: &RaftVolatileData,
        log_entries: &Vec<LogEntry>,
    ) -> (input: AppendEntriesInput)
        ensures
            final(stable_data).wf(),
            final(stable_data).node_type == old(stable_data).node_type,
            final(stable_data).current_term == old(stable_data).current_term,
            final(stable_data).voted_for == old(stable_data).voted_for,
            final(stable_data).log@ == old(stable_data).log@ + log_entries@,
            input.leader_id@ == addr@,
            input.term == old(stable_data).current_term,
            input.entries@ == log_entries@,
            input.prev_log_index == old(stable_data).last_index(),
            input.prev_log_term == old(stable_data).last_term(),
            input.leader_commit == volatile_data.commit_index,
    {
        append_to_log(stable_data, log_entries);
        append_entries_input(addr, stable_data, volatile_data.commit_index, log_entries)
    }

    fn write_and_share_logs(
        &mut self,
        stable_data: &RaftStableData,
        volatile_data: &mut RaftVolatileData,
        replies: &Vec<PeerReply<AppendEntriesOutput>>,
    ) -> (result: Result<(), StateMachineError>)
        ensures
            final(self).wf(),
            final(self).peers@.len() == old(self).peers@.len(),
            forall|i: int|
                0 <= i < replies@.len() ==> (#[trigger] final(self).peers@[i]) == (Peer {
                    addr: old(self).peers@[i].addr,
                    data: peer_after(
                        old(self).peers@[i].data,
                        replies@[i],
                        stable_data.last_index(),
                    ),
                }),
            final(volatile_data).last_applied == old(volatile_data).last_applied,
            result is Ok <==> committed(
                old(self).peers@,
                replies@,
                stable_data.last_index(),
                old(volatile_data).commit_index as int,
            ),
            result is Ok ==> final(volatile_data).commit_index == stable_data.last_index(),
            result is Err ==> final(volatile_data).commit_index == old(volatile_data).commit_index,
            result matches Err(error) ==> error.is_write_failure(
                "Data not committed, not enough peers received updates"@,
            ),
    {
        let shared = self.share_to_peers(stable_data, volatile_data.commit_index, replies);
        proof {
            lemma_acknowledged_some(old(self).peers@, replies@, replies@.len() as int);
            if count_acknowledged(old(self).peers@, replies@, replies@.len() as int) > 0 {
                let i = choose|i: int|
                    0 <= i < replies@.len() && acknowledged(
                        #[trigger] old(self).peers@[i].data,
                        replies@[i],
                    );
                assert(shared.request_append_entries_results@[i] is Ok);
            }
        }
        let half: i64 = (self.peers.len() as i64 + 1) / 2;
        let index = self.calculate_new_commit_index(
            shared.count_communicated,
            &shared.request_append_entries_results,
        );
        if let Ok(min_new_commit_index) = index {
            if shared.count_communicated > half {
                volatile_data.commit_index = min_new_commit_index;
                return Ok(());
            }
        }
        Err(
            StateMachineError::FailedToWriteToLogs(
                "Data not committed, not enough peers received updates".to_owned(),
            ),
        )
    }

    fn share_to_peers(
        &mut self,
        raft_stable_data: &RaftStableData,
        curr_commit_index: i64,
        replies: &Vec<PeerReply<AppendEntriesOutput>>,
    ) -> (result: ProposeToPeersResult)
        ensures
            final(self).wf(),
            final(self).peers@.len() == old(self).peers@.len(),
            forall|i: int|
                0 <= i < replies@.len() ==> (#[trigger] final(self).peers@[i]) == (Peer {
                    addr: old(self).peers@[i].addr,
                    data: peer_after(
                        old(self).peers@[i].data,
                        replies@[i],
                        raft_stable_data.last_index(),
                    ),
                }),
            result.count_communicated == count_holding(
                old(self).peers@,
                replies@,
                raft_stable_data.last_index(),
                curr_commit_index as int,
            ),
            result.request_append_entries_results@.len() == replies@.len(),
            forall|i: int|
                0 <= i < replies@.len() ==> is_append_result(
                    #[trigger] result.request_append_entries_results@[i],
                    old(self).peers@[i].addr@,
                    old(self).peers@[i].data,
                    replies@[i],
                    raft_stable_data.last_index(),
                ),
    {
        let ghost before = self.peers@;
        let ghost last_index = raft_stable_data.last_index();
        let mut count_communicated: i64 = 1;
        let mut results: Vec<Result<i64, LeaderError>> = Vec::new();
        let mut i: usize = 0;
        while i < replies.len()
            invariant
                raft_stable_data.wf(),
                last_index == raft_stable_data.last_index(),
                old(self).usable(replies@),
                before == old(self).peers@,
                i <= replies@.len(),
                self.peers@.len() == before.len() == replies@.len(),
                results@.len() == i,
                count_communicated == 1 + if last_index >= curr_commit_index {
                    count_acknowledged(before, replies@, i as int)
                } else {
                    0
                },
                1 <= count_communicated <= 1 + i,
                forall|j: int|
                    0 <= j < i ==> (#[trigger] self.peers@[j]) == (Peer {
                        addr: before[j].addr,
                        data: peer_after(before[j].data, replies@[j], last_index),
                    }),
                forall|j: int| i <= j < before.len() ==> (#[trigger] self.peers@[j]) == before[j],
                forall|j: int|
                    0 <= j < i ==> is_append_result(
                        #[trigger] results@[j],
                        before[j].addr@,
                        before[j].data,
                        replies@[j],
                        last_index,
                    ),
            decreases replies.len() - i,
        {
            let peer = &mut self.peers[i];
            let result = Self::request_append_entries_peer(
                raft_stable_data,
                &mut count_communicated,
                &peer.addr,
                &mut peer.data,
                curr_commit_index,
                &replies[i],
            );
            results.push(result);
            i = i + 1;
        }
        ProposeToPeersResult { count_communicated, request_append_entries_results: results }
    }

    fn calculate_new_commit_index(
        &self,
        count_communicated: i64,
        results: &Vec<Result<i64, LeaderError>>,
    ) -> (result: Result<i64, LeaderError>)
        ensures
            match result {
                Ok(least) => count_communicated > self.peers@.len() as int / 2 && is_least_ok(
                    results@,
                    least,
                ),
                Err(LeaderError::NoMinimumPeerCommitIndexFound(message)) => {
                    &&& count_communicated > self.peers@.len() as int / 2
                    &&& forall|i: int| 0 <= i < results@.len() ==> (#[trigger] results@[i]) is Err
                    &&& message@
                        == "Failed to get minimum peer commit index after successful communication to the majority"@
                },
                Err(LeaderError::NotEnoughPeersUpdated(message)) => {
                    &&& count_communicated <= self.peers@.len() as int / 2
                    &&& message@ == "Not enough peers were updated to get a new commit index"@
                },
                Err(_) => false,
            },
    {
        if count_communicated > (self.peers.len() / 2) as i64 {
            match least_ok(results) {
                Some(least) => Ok(least),
                None => Err(
                    LeaderError::NoMinimumPeerCommitIndexFound(
                        "Failed to get minimum peer commit index after successful communication to the majority".to_owned(),
                    ),
                ),
            }
        } else {
            Err(
                LeaderError::NotEnoughPeersUpdated(
                    "Not enough peers were updated to get a new commit index".to_owned(),
                ),
            )
        }
    }

    fn request_append_entries_peer(
        raft_stable_data: &RaftStableData,
        count_communicated: &mut i64,
        peer_addr: &String,
        peer_data: &mut PeerData<C>,
        curr_commit_index: i64,
        reply: &PeerReply<AppendEntriesOutput>,
    ) -> (result: Result<i64, LeaderError>)
        ensures
            *final(peer_data) == peer_after(
                *old(peer_data),
                *reply,
                raft_stable_data.last_index(),
            ),
            is_append_result(
                result,
                peer_addr@,
                *old(peer_data),
                *reply,
                raft_stable_data.last_index(),
            ),
            *final(count_communicated) == *old(count_communicated) + if acknowledged(
                *old(peer_data),
                *reply,
            ) && raft_stable_data.last_index() >= curr_commit_index {
                1int
            } else {
                0int
            },
    {
        if peer_data.leader_state.is_none() || peer_data.connection.is_none() {
            return Err(LeaderError::NoLeaderStateFound("No leader state found".to_owned()));
        }
        let took = match reply {
            PeerReply::Replied(output) => output.success,
            PeerReply::Unreached => false,
        };
        if !took {
            return Err(LeaderError::FailedToAppendEntries(peer_addr.clone()));
        }
        let next_index: i64 = raft_stable_data.log.len() as i64;
        let match_index: i64 = next_index - 1;
        peer_data.leader_state = Some(RaftLeaderState { next_index, match_index });
        if match_index >= curr_commit_index {
            *count_communicated = *count_communicated + 1;
        }
        Ok(match_index)
    }
}

/// How many nodes, the leader included, are counted as holding the entries up to
/// `last_index`.
pub open spec fn count_holding<C>(
    peers: Seq<Peer<C>>,
    replies: Seq<PeerReply<AppendEntriesOutput>>,
    last_index: int,
    commit_index: int,
) -> int {
    1 + if last_index >= commit_index {
        count_acknowledged(peers, replies, replies.len() as int)
    } else {
        0
    }
}

/// Whether the entries up to `last_index` are committed: some peer acknowledged them,
/// and with the leader a majority of the cluster holds them.
pub open spec fn committed<C>(
    peers: Seq<Peer<C>>,
    replies: Seq<PeerReply<AppendEntriesOutput>>,
    last_index: int,
    commit_index: int,
) -> bool {
    &&& count_acknowledged(peers, replies, replies.len() as int) > 0
    &&& is_majority(
        count_holding(peers, replies, last_index, commit_index),
        replies.len() as int,
    )
}

/// The count is positive exactly if some peer acknowledged.
proof fn lemma_acknowledged_some<C>(
    peers: Seq<Peer<C>>,
    replies: Seq<PeerReply<AppendEntriesOutput>>,
    n: int,
)
    requires
        0 <= n,
    ensures
        0 <= count_acknowledged(peers, replies, n) <= n,
        count_acknowledged(peers, replies, n) > 0 <==> exists|i: int|
            0 <= i < n && acknowledged(#[trigger] peers[i].data, replies[i]),
    decreases n,
{
    if n > 0 {
        lemma_acknowledged_some(peers, replies, n - 1);
        if acknowledged(peers[n - 1].data, replies[n - 1]) {
            assert(acknowledged(peers[n - 1].data, replies[n - 1]));
        }
    }
}

/// The smallest index among the results.
pub fn least_ok(results: &Vec<Result<i64, LeaderError>>) -> (least: Option<i64>)
    ensures
        match least {
            Some(least) => is_least_ok(results@, least),
            None => forall|i: int| 0 <= i < results@.len() ==> (#[trigger] results@[i]) is Err,
        },
{
    let mut least: Option<i64> = None;
    let mut i: usize = 0;
    while i < results.len()
        invariant
            i <= results@.len(),
            match least {
                Some(least) => {
                    &&& exists|j: int|
                        0 <= j < i && #[trigger] results@[j] == Ok::<i64, LeaderError>(least)
                    &&& forall|j: int|
                        0 <= j < i && (#[trigger] results@[j]) is Ok ==> least
                            <= results@[j]->Ok_0
                },
                None => forall|j: int| 0 <= j < i ==> (#[trigger] results@[j]) is Err,
            },
        decreases results.len() - i,
    {
        match &results[i] {
            Ok(index) => {
                assert(results@[i as int] == Ok::<i64, LeaderError>(*index));
                match least {
                    Some(smallest) if smallest <= *index => {},
                    _ => {
                        least = Some(*index);
                    },
                }
            },
            Err(_) => {},
        }
        i = i + 1;
    }
    least
}

/// Adds entries to the end of a log.
pub fn append_to_log(stable_data: &mut RaftStableData, log_entries: &Vec<LogEntry>)
    ensures
        final(stable_data).node_type == old(stable_data).node_type,
        final(stable_data).current_term == old(stable_data).current_term,
        final(stable_data).voted_for == old(stable_data).voted_for,
        final(stable_data).log@ == old(stable_data).log@ + log_entries@,
{
    let mut i: usize = 0;
    assert(stable_data.log@ =~= old(stable_data).log@ + log_entries@.take(0));
    while i < log_entries.len()
        invariant
            i <= log_entries@.len(),
            stable_data.node_type == old(stable_data).node_type,
            stable_data.current_term == old(stable_data).current_term,
            stable_data.voted_for == old(stable_data).voted_for,
            stable_data.log@ == old(stable_data).log@ + log_entries@.take(i as int),
        decreases log_entries.len() - i,
    {
        stable_data.log.push(log_entries[i].clone());
        i = i + 1;
        assert(log_entries@.take(i as int) =~= log_entries@.take(i - 1).push(log_entries@[i - 1]));
    }
    assert(log_entries@.take(i as int) =~= log_entries@);
}

/// The message with which a candidate asks for votes.
pub fn request_vote_input(addr: &String, raft_stable_data: &RaftStableData) -> (input:
    RequestVoteInput)
    requires
        raft_stable_data.wf(),
    ensures
        input.term == raft_stable_data.current_term,
        input.candidate_id@ == addr@,
        input.last_log_index == raft_stable_data.last_index(),
        input.last_log_term == raft_stable_data.last_term(),
{
    let last: usize = raft_stable_data.log.len() - 1;
    RequestVoteInput {
        term: raft_stable_data.current_term,
        candidate_id: addr.clone(),
        last_log_index: last as i64,
        last_log_term: raft_stable_data.log[last].term,
    }
}

/// Whether a peer voted for the candidate.
pub open spec fn voted_yes<C>(peer: PeerData<C>, reply: PeerReply<RequestVoteOutput>) -> bool {
    peer.connection is Some && (reply matches PeerReply::Replied(output) && output.vote_granted)
}

/// How many of the first `n` peers voted for the candidate.
pub open spec fn count_votes<C>(
    peers: Seq<Peer<C>>,
    replies: Seq<PeerReply<RequestVoteOutput>>,
    n: int,
) -> int
    decreases n,
{
    if n <= 0 {
        0
    } else {
        count_votes(peers, replies, n - 1) + if voted_yes(peers[n - 1].data, replies[n - 1]) {
            1int
        } else {
            0int
        }
    }
}

/// Whether the votes of the peers, with the candidate's own, are more than half as many as
/// there are peers.
pub open spec fn wins<C>(
    peers: Seq<Peer<C>>,
    replies: Seq<PeerReply<RequestVoteOutput>>,
) -> bool {
    1 + count_votes(peers, replies, replies.len() as int) > replies.len() as int / 2
}

/// What a candidate does.
pub trait CandidateActions<C> {
    /// One reply for each peer.
    spec fn answered(&self, replies: Seq<PeerReply<RequestVoteOutput>>) -> bool;

    /// Tallies the answers of the peers and determines if the election was won.
    fn request_votes(
        &self,
        replies: &Vec<PeerReply<RequestVoteOutput>>,
    ) -> (result: RequestVotesResult)
        requires
            self.answered(replies@),
    ;

    /// Takes the answer of one peer: whether it voted for this node, or why it is not known.
    fn request_vote_from_peer(
        peer_addr: &String,
        peer_data: &PeerData<C>,
        reply: &PeerReply<RequestVoteOutput>,
    ) -> (result: Result<bool, CandidateError>);

    /// Whether the votes are enough to become the leader.
    fn determine_election_result(&self, count_voted_yes: i64) -> (won: bool);
}

impl<C> CandidateActions<C> for PeerConnections<C> {
    open spec fn answered(&self, replies: Seq<PeerReply<RequestVoteOutput>>) -> bool {
        self.wf() && replies.len() == self.peers@.len()
    }

    fn request_votes(
        &self,
        replies: &Vec<PeerReply<RequestVoteOutput>>,
    ) -> (result: RequestVotesResult)
        ensures
            result.won_election <==> wins(self.peers@, replies@),
    {
        let mut count_voted_yes: i64 = 1;
        let mut i: usize = 0;
        while i < replies.len()
            invariant
                self.answered(replies@),
                i <= replies@.len(),
                count_voted_yes == 1 + count_votes(self.peers@, replies@, i as int),
                1 <= count_voted_yes <= 1 + i,
            decreases replies.len() - i,
        {
            let peer = &self.peers[i];
            let vote = Self::request_vote_from_peer(&peer.addr, &peer.data, &replies[i]);
            if let Ok(true) = vote {
                count_voted_yes = count_voted_yes + 1;
            }
            i = i + 1;
        }
        RequestVotesResult { won_election: self.determine_election_result(count_voted_yes) }
    }

    fn request_vote_from_peer(
        peer_addr: &String,
        peer_data: &PeerData<C>,
        reply: &PeerReply<RequestVoteOutput>,
    ) -> (result: Result<bool, CandidateError>)
        ensures
            match result {
                Ok(granted) => peer_data.connection is Some && (*reply matches PeerReply::Replied(
                    output,
                ) && granted == output.vote_granted),
                Err(CandidateError::NoClientFound(message)) => {
                    &&& peer_data.connection is None
                    &&& message@ == "Raft Client found for "@ + quoted_text(peer_addr@)
                },
                Err(CandidateError::RequestForVoteFailure(message)) => {
                    &&& peer_data.connection is Some
                    &&& *reply is Unreached
                    &&& message@ == "Failed to request vote from peer "@ + quoted_text(peer_addr@)
                },
                Err(CandidateError::CustomError(_)) => false,
            },
    {
        if peer_data.connection.is_none() {
            return Err(
                CandidateError::NoClientFound(
                    joined("Raft Client found for ", quoted(peer_addr.as_str()).as_str()),
                ),
            );
        }
        match reply {
            PeerReply::Replied(output) => Ok(output.vote_granted),
            PeerReply::Unreached => Err(
                CandidateError::RequestForVoteFailure(
                    joined(
                        "Failed to request vote from peer ",
                        quoted(peer_addr.as_str()).as_str(),
                    ),
                ),
            ),
        }
    }

    fn determine_election_result(&self, count_voted_yes: i64) -> (won: bool)
        ensures
            won <==> count_voted_yes > self.peers@.len() as int / 2,
    {
        count_voted_yes > (self.peers.len() / 2) as i64
    }
}

} // verus!
