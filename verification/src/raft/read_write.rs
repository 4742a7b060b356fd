//! Reads and writes: what a node does for its clients.

use vstd::prelude::*;

use crate::messages::{
    AppendEntriesInput, AppendEntriesOutput, GetValueInput, GetValueOutput, LogAction, LogEntry,
    ProposeValueInput, ProposeValueOutput, Value,
};
use crate::raft::data_store::{apply_failure, can_update, caught_up, check_update};
use crate::raft::error::{ReadError, StateMachineError, WriteError};
use crate::raft::node::{Database, RaftImpl};
use crate::raft::peer::{committed, peer_after, LeaderActions, Peer, PeerReply};
use crate::raft::state::{RaftNodeType, RaftStableData};
use crate::text::{joined, quoted_text, texts};

verus! {

/// The keys and values that a store holds for the given keys, in the order of the keys.
/// Keys that it does not hold are left out.
pub open spec fn found(data: Map<Seq<char>, Seq<char>>, keys: Seq<Seq<char>>) -> Seq<
    (Seq<char>, Seq<char>),
>
    decreases keys.len(),
{
    if keys.len() == 0 {
        seq![]
    } else {
        let before = found(data, keys.drop_last());
        if data.contains_key(keys.last()) {
            before.push((keys.last(), data[keys.last()]))
        } else {
            before
        }
    }
}

/// The keys and values of a list.
pub open spec fn pairs(values: Seq<Value>) -> Seq<(Seq<char>, Seq<char>)> {
    values.map_values(|value: Value| value.text())
}

/// Whether the entries store the values, one each, in the given term.
pub open spec fn stores_values(entries: Seq<LogEntry>, values: Seq<Value>, term: i64) -> bool {
    &&& entries.len() == values.len()
    &&& forall|i: int|
        0 <= i < entries.len() ==> {
            &&& (#[trigger] entries[i]).action() == Some(LogAction::Put)
            &&& entries[i].value == Some(values[i])
            &&& entries[i].term == term
        }
}

/// The entries that store the proposed values. This does not fail.
pub fn parse_log_entries(raft_stable_data: &RaftStableData, input: &ProposeValueInput) -> (result:
    Result<Vec<LogEntry>, StateMachineError>)
    ensures
        result matches Ok(entries) && stores_values(
            entries@,
            input.values@,
            raft_stable_data.current_term,
        ),
{
    let mut log_entries: Vec<LogEntry> = Vec::new();
    let mut i: usize = 0;
    while i < input.values.len()
        invariant
            i <= input.values@.len(),
            stores_values(
                log_entries@,
                input.values@.take(i as int),
                raft_stable_data.current_term,
            ),
        decreases input.values.len() - i,
    {
        log_entries.push(LogEntry::put(input.values[i].clone(), raft_stable_data.current_term));
        i = i + 1;
    }
    assert(input.values@.take(i as int) =~= input.values@);
    Ok(log_entries)
}

/// Reading and writing values.
pub trait ReadAndWrite {
    /// Whether the log has room for that many more entries.
    spec fn can_write(&self, count: int) -> bool;

    /// One reply for each peer, and what becomes committed can be applied.
    spec fn can_conclude(&self, replies: Seq<PeerReply<AppendEntriesOutput>>) -> bool;

    /// Reads the values of keys. The result holds those of the keys that exist. No read
    /// fails.
    fn get_value(&self, get_value_input: GetValueInput) -> (result: Result<
        GetValueOutput,
        ReadError,
    >);

    /// Starts a write: adds the values to the own log and returns the message that shares
    /// them with the peers. Only the leader does so.
    fn propose_value(&mut self, propose_value_input: &ProposeValueInput) -> (result: Result<
        AppendEntriesInput,
        WriteError,
    >)
        requires
            old(self).can_write(propose_value_input.values@.len() as int),
    ;

    /// Ends a write, given the answers of the peers: where a majority has the values, they
    /// are inserted into the data store.
    fn conclude_proposal(
        &mut self,
        request_id: String,
        replies: &Vec<PeerReply<AppendEntriesOutput>>,
    ) -> (result: Result<ProposeValueOutput, WriteError>)
        requires
            old(self).can_conclude(replies@),
    ;
}

impl<C> Database<C> {
    /// Whether `after` is this node once it has started to write `values`, and `message`
    /// carries them to the peers.
    pub open spec fn proposed(
        self,
        values: Seq<Value>,
        message: AppendEntriesInput,
        after: Self,
    ) -> bool {
        let before = self.state.raft_data;
        &&& after.state.raft_data.wf()
        &&& after.state.raft_data.node_type == before.node_type
        &&& after.state.raft_data.current_term == before.current_term
        &&& after.state.raft_data.voted_for == before.voted_for
        &&& after.state.raft_data.log@ == before.log@ + message.entries@
        &&& after.addr == self.addr
        &&& after.peer_connections == self.peer_connections
        &&& after.volatile_state == self.volatile_state
        &&& after.data_store == self.data_store
        &&& message.leader_id@ == self.addr.text@
        &&& message.term == before.current_term
        &&& stores_values(message.entries@, values, before.current_term)
        &&& message.prev_log_index == before.last_index()
        &&& message.prev_log_term == before.last_term()
        &&& message.leader_commit == self.volatile_state.raft_data.commit_index
    }

    /// Tells whether a write of that many values can be started, see [`ReadAndWrite::can_write`].
    pub fn check_write(&self, count: usize) -> (can: bool)
        requires
            self.wf(),
        ensures
            can <==> self.can_write(count as int),
    {
        count as u64 <= i64::MAX as u64 - self.state.raft_data.log.len() as u64
    }

    /// Tells whether a write can be ended, see [`ReadAndWrite::can_conclude`].
    pub fn check_conclude(&self, replies: &Vec<PeerReply<AppendEntriesOutput>>) -> (safe: bool)
        requires
            self.wf(),
        ensures
            safe <==> self.can_conclude(replies@),
    {
        let log = &self.state.raft_data.log;
        let last_index: i64 = log.len() as i64 - 1;
        let commit_index: i64 = self.volatile_state.raft_data.commit_index;
        match self.peer_connections.count_usable(replies) {
            None => false,
            Some(count) => {
                let holding: i64 = if last_index >= commit_index {
                    count as i64 + 1
                } else {
                    1
                };
                let half: i64 = (replies.len() as i64 + 1) / 2;
                assert(log@.take(log@.len() as int) + Seq::<LogEntry>::empty() =~= log@);
                count == 0 || holding <= half || check_update(
                    log,
                    log.len(),
                    &Vec::new(),
                    self.volatile_state.raft_data.last_applied,
                    last_index,
                )
            },
        }
    }

    /// Whether the whole log becomes committed through the answers of the peers.
    pub open spec fn commits(self, replies: Seq<PeerReply<AppendEntriesOutput>>) -> bool {
        committed(
            self.peer_connections.peers@,
            replies,
            self.state.raft_data.last_index(),
            self.volatile_state.raft_data.commit_index as int,
        )
    }

    /// Whether `after` knows of the peers what this node learns from their answers.
    pub open spec fn learned(
        self,
        replies: Seq<PeerReply<AppendEntriesOutput>>,
        after: Self,
    ) -> bool {
        &&& after.peer_connections.wf()
        &&& after.peer_connections.peers@.len() == self.peer_connections.peers@.len()
        &&& forall|i: int|
            0 <= i < replies.len() ==> (#[trigger] after.peer_connections.peers@[i]) == (Peer {
                addr: self.peer_connections.peers@[i].addr,
                data: peer_after(
                    self.peer_connections.peers@[i].data,
                    replies[i],
                    self.state.raft_data.last_index(),
                ),
            })
    }

    /// Whether `after` is this node once the answers of the peers have ended a write.
    pub open spec fn concluded(
        self,
        replies: Seq<PeerReply<AppendEntriesOutput>>,
        after: Self,
    ) -> bool {
        &&& after.addr == self.addr
        &&& after.state == self.state
        &&& self.learned(replies, after)
        &&& if self.commits(replies) {
            &&& after.volatile_state.raft_data.commit_index == self.state.raft_data.last_index()
            &&& caught_up(
                self.state.raft_data.log@,
                self.state.raft_data.last_index(),
                self.volatile_state.raft_data.last_applied as int,
                after.volatile_state.raft_data.last_applied as int,
                self.data_store@,
                after.data_store@,
            )
        } else {
            &&& after.volatile_state == self.volatile_state
            &&& after.data_store == self.data_store
        }
    }
}

impl<C> ReadAndWrite for Database<C> {
    open spec fn can_write(&self, count: int) -> bool {
        self.wf() && self.state.raft_data.log@.len() + count <= i64::MAX
    }

    open spec fn can_conclude(&self, replies: Seq<PeerReply<AppendEntriesOutput>>) -> bool {
        &&& self.wf()
        &&& self.peer_connections.usable(replies)
        &&& self.commits(replies) ==> can_update(
            self.state.raft_data.log@,
            self.volatile_state.raft_data.last_applied as int,
            self.state.raft_data.last_index(),
        )
    }

    fn get_value(&self, get_value_input: GetValueInput) -> (result: Result<
        GetValueOutput,
        ReadError,
    >)
        ensures
            result matches Ok(output) && output.request_id == get_value_input.request_id
                && pairs(output.values@) == found(self.data_store@, texts(get_value_input.keys@)),
    {
        let keys = &get_value_input.keys;
        let mut values: Vec<Value> = Vec::new();
        let mut i: usize = 0;
        assert(pairs(values@) =~= found(self.data_store@, texts(keys@).take(0)));
        while i < keys.len()
            invariant
                i <= keys@.len(),
                pairs(values@) == found(self.data_store@, texts(keys@).take(i as int)),
            decreases keys.len() - i,
        {
            let ghost before = values@;
            assert(texts(keys@).take(i + 1).drop_last() =~= texts(keys@).take(i as int));
            match self.data_store.data.get(keys[i].as_str()) {
                Some(value) => {
                    values.push(Value { key: keys[i].clone(), value: value.clone() });
                    assert(pairs(values@) =~= pairs(before).push(
                        (keys@[i as int]@, self.data_store@[keys@[i as int]@]),
                    ));
                },
                None => {},
            }
            i = i + 1;
        }
        assert(texts(keys@).take(i as int) =~= texts(keys@));
        Ok(GetValueOutput { request_id: get_value_input.request_id, values })
    }

    fn propose_value(&mut self, propose_value_input: &ProposeValueInput) -> (result: Result<
        AppendEntriesInput,
        WriteError,
    >)
        ensures
            match result {
                Ok(message) => {
                    &&& old(self).state.raft_data.node_type == RaftNodeType::Leader
                    &&& old(self).proposed(propose_value_input.values@, message, *final(self))
                },
                Err(error) => {
                    &&& old(self).state.raft_data.node_type != RaftNodeType::Leader
                    &&& *final(self) == *old(self)
                    &&& error is NotTheLeader
                },
            },
    {
        match self.state.raft_data.node_type {
            RaftNodeType::Leader => {},
            _ => {
                return Err(WriteError::NotTheLeader);
            },
        }
        let log_entries = match parse_log_entries(&self.state.raft_data, propose_value_input) {
            Ok(log_entries) => log_entries,
            Err(error) => {
                return Err(WriteError::FailedToParseLogs(error));
            },
        };
        Ok(
            self.peer_connections.write_to_own_log(
                &self.addr.text,
                &mut self.state.raft_data,
                &self.volatile_state.raft_data,
                &log_entries,
            ),
        )
    }

    fn conclude_proposal(
        &mut self,
        request_id: String,
        replies: &Vec<PeerReply<AppendEntriesOutput>>,
    ) -> (result: Result<ProposeValueOutput, WriteError>)
        ensures
            old(self).concluded(replies@, *final(self)),
            match result {
                Ok(output) => {
                    &&& old(self).commits(replies@)
                    &&& final(self).is_current()
                    &&& output.request_id == request_id
                },
                Err(WriteError::FailedToCommunicateToMajority(error)) => {
                    &&& !old(self).commits(replies@)
                    &&& error.is_write_failure(
                        "Data not committed, not enough peers received updates"@,
                    )
                },
                Err(WriteError::FailedToUpdateStateMachine(error)) => {
                    let failed = final(self).volatile_state.raft_data.last_applied + 1;
                    &&& old(self).commits(replies@)
                    &&& !final(self).is_current()
                    &&& error.is_apply_failure(
                        apply_failure(old(self).state.raft_data.log@[failed]),
                    )
                },
                Err(_) => false,
            },
    {
        match self.peer_connections.write_and_share_logs(
            &self.state.raft_data,
            &mut self.volatile_state.raft_data,
            replies,
        ) {
            Ok(()) => {},
            Err(error) => {
                return Err(WriteError::FailedToCommunicateToMajority(error));
            },
        }
        match self.data_store.update_state_machine(
            &self.state.raft_data,
            &mut self.volatile_state.raft_data,
        ) {
            Ok(_) => Ok(ProposeValueOutput { request_id }),
            Err(error) => Err(WriteError::FailedToUpdateStateMachine(error)),
        }
    }
}

impl<C> RaftImpl<C> {
    /// Answers a client that reads. The error is the text of an internal failure; there
    /// is none.
    pub fn get_value(&self, request: GetValueInput) -> (result: Result<GetValueOutput, String>)
        ensures
            result matches Ok(output) && output.request_id == request.request_id && pairs(
                output.values@,
            ) == found(self.inner.data_store@, texts(request.keys@)),
    {
        match self.inner.get_value(request) {
            Ok(output) => Ok(output),
            Err(_) => Err("Failed to get value from the state machine: Unreadable".to_owned()),
        }
    }

    /// Starts the answer to a client that writes, see [`ReadAndWrite::propose_value`]. The
    /// error is the text of an internal failure.
    pub fn propose_value(&mut self, request: &ProposeValueInput) -> (result: Result<
        AppendEntriesInput,
        String,
    >)
        requires
            old(self).inner.can_write(request.values@.len() as int),
        ensures
            match result {
                Ok(message) => {
                    &&& old(self).inner.state.raft_data.node_type == RaftNodeType::Leader
                    &&& old(self).inner.proposed(request.values@, message, final(self).inner)
                },
                Err(message) => {
                    &&& old(self).inner.state.raft_data.node_type != RaftNodeType::Leader
                    &&& *final(self) == *old(self)
                    &&& message@ == WriteError::NotTheLeader.status()
                },
            },
    {
        match self.inner.propose_value(request) {
            Ok(message) => Ok(message),
            Err(error) => Err(
                joined("Failed to write the new values due to: ", error.show().as_str()),
            ),
        }
    }

    /// Ends the answer to a client that writes, see [`ReadAndWrite::conclude_proposal`]. The
    /// error is the text of an internal failure.
    pub fn conclude_proposal(
        &mut self,
        request_id: String,
        replies: &Vec<PeerReply<AppendEntriesOutput>>,
    ) -> (result: Result<ProposeValueOutput, String>)
        requires
            old(self).inner.can_conclude(replies@),
        ensures
            old(self).inner.concluded(replies@, final(self).inner),
            match result {
                Ok(output) => {
                    &&& old(self).inner.commits(replies@)
                    &&& final(self).inner.is_current()
                    &&& output.request_id == request_id
                },
                Err(message) => {
                    let failed = final(self).inner.volatile_state.raft_data.last_applied + 1;
                    &&& old(self).inner.commits(replies@) ==> !final(self).inner.is_current()
                    &&& message@ == "Failed to write the new values due to: "@ + if old(
                        self,
                    ).inner.commits(replies@) {
                        "FailedToUpdateStateMachine("@ + ("FailedToApplyLogs("@ + quoted_text(
                            apply_failure(old(self).inner.state.raft_data.log@[failed]),
                        ) + ")"@) + ")"@
                    } else {
                        "FailedToCommunicateToMajority("@ + ("FailedToWriteToLogs("@ + quoted_text(
                            "Data not committed, not enough peers received updates"@,
                        ) + ")"@) + ")"@
                    }
                },
            },
    {
        match self.inner.conclude_proposal(request_id, replies) {
            Ok(output) => Ok(output),
            Err(error) => Err(
                joined("Failed to write the new values due to: ", error.show().as_str()),
            ),
        }
    }
}

} // verus!
