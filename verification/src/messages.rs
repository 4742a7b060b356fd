//! The messages that nodes and clients exchange, and the entries of the log.

use vstd::prelude::*;

verus! {

/// One key with the value stored under it.
#[derive(Debug)]
pub struct Value {
    pub key: String,
    pub value: String,
}

impl Clone for Value {
    fn clone(&self) -> (copy: Self)
        ensures
            copy == *self,
    {
        Value { key: self.key.clone(), value: self.value.clone() }
    }
}

impl Value {
    /// The key and the value as texts.
    pub open spec fn text(self) -> (Seq<char>, Seq<char>) {
        (self.key@, self.value@)
    }
}

/// What applying a log entry does to the data store.
#[derive(Clone, Copy, Debug, PartialEq, Eq, Structural)]
pub enum LogAction {
    /// Store the entry's value under its key.
    Put,
    /// Remove a key. No node applies such an entry yet.
    Delete,
    /// Nothing. Leaders send such entries as heartbeats.
    Noop,
}

/// The action that a number on the wire stands for.
pub open spec fn action_of_code(code: int) -> Option<LogAction> {
    if code == 0 {
        Some(LogAction::Put)
    } else if code == 1 {
        Some(LogAction::Delete)
    } else if code == 2 {
        Some(LogAction::Noop)
    } else {
        None
    }
}

impl LogAction {
    /// The number of this action on the wire.
    pub fn code(self) -> (code: i32)
        ensures
            action_of_code(code as int) == Some(self),
    {
        match self {
            LogAction::Put => 0,
            LogAction::Delete => 1,
            LogAction::Noop => 2,
        }
    }

    /// The action that a number on the wire stands for, if there is one.
    pub fn from_i32(code: i32) -> (action: Option<LogAction>)
        ensures
            action == action_of_code(code as int),
    {
        match code {
            0 => Some(LogAction::Put),
            1 => Some(LogAction::Delete),
            2 => Some(LogAction::Noop),
            _ => None,
        }
    }
}

/// An entry of the replicated log.
#[derive(Debug)]
pub struct LogEntry {
    /// The number of the entry's [`LogAction`].
    pub log_action: i32,
    /// The value that a `Put` stores.
    pub value: Option<Value>,
    /// The term of the leader that created the entry.
    pub term: i64,
}

impl Clone for LogEntry {
    fn clone(&self) -> (copy: Self)
        ensures
            copy == *self,
    {
        let value = match &self.value {
            Some(value) => Some(value.clone()),
            None => None,
        };
        LogEntry { log_action: self.log_action, value, term: self.term }
    }
}

impl LogEntry {
    /// What the entry does, if its number stands for an action.
    pub open spec fn action(self) -> Option<LogAction> {
        action_of_code(self.log_action as int)
    }

    /// The entry that leaders send as a heartbeat.
    pub fn noop(term: i64) -> (entry: LogEntry)
        ensures
            entry.action() == Some(LogAction::Noop),
            entry.value is None,
            entry.term == term,
    {
        LogEntry { log_action: LogAction::Noop.code(), value: None, term }
    }

    /// An entry that stores `value`.
    pub fn put(value: Value, term: i64) -> (entry: LogEntry)
        ensures
            entry.action() == Some(LogAction::Put),
            entry.value == Some(value),
            entry.term == term,
    {
        LogEntry { log_action: LogAction::Put.code(), value: Some(value), term }
    }
}

/// A copy of a list of entries.
pub fn clone_entries(entries: &Vec<LogEntry>) -> (copy: Vec<LogEntry>)
    ensures
        copy@ == entries@,
{
    let mut copy: Vec<LogEntry> = Vec::with_capacity(entries.len());
    let mut i: usize = 0;
    while i < entries.len()
        invariant
            i <= entries.len(),
            copy@ == entries@.take(i as int),
        decreases entries.len() - i,
    {
        copy.push(entries[i].clone());
        i = i + 1;
        assert(entries@.take(i as int) =~= entries@.take(i - 1).push(entries@[i - 1]));
    }
    assert(entries@.take(i as int) =~= entries@);
    copy
}

/// A leader asks a follower to take over entries.
#[derive(Debug)]
pub struct AppendEntriesInput {
    pub leader_id: String,
    pub term: i64,
    pub entries: Vec<LogEntry>,
    /// The index of the entry that precedes the new ones.
    pub prev_log_index: i64,
    /// The term of the entry that precedes the new ones.
    pub prev_log_term: i64,
    pub leader_commit: i64,
}

/// A follower's answer to [`AppendEntriesInput`].
#[derive(Debug)]
pub struct AppendEntriesOutput {
    pub success: bool,
    pub term: i64,
}

/// A candidate asks for a vote.
#[derive(Debug)]
pub struct RequestVoteInput {
    pub term: i64,
    pub candidate_id: String,
    pub last_log_index: i64,
    pub last_log_term: i64,
}

/// The answer to [`RequestVoteInput`].
#[derive(Debug)]
pub struct RequestVoteOutput {
    pub term: i64,
    pub vote_granted: bool,
}

/// A client asks a node for the values of keys.
#[derive(Debug)]
pub struct GetValueInput {
    pub request_id: String,
    pub keys: Vec<String>,
}

/// The answer to [`GetValueInput`].
#[derive(Debug)]
pub struct GetValueOutput {
    pub request_id: String,
    pub values: Vec<Value>,
}

/// A client asks the leader to store values.
#[derive(Debug)]
pub struct ProposeValueInput {
    pub request_id: String,
    pub values: Vec<Value>,
}

/// The answer to [`ProposeValueInput`].
#[derive(Debug)]
pub struct ProposeValueOutput {
    pub request_id: String,
}

/// A node greets another.
#[derive(Debug)]
pub struct PingInput {
    pub requester: String,
}

/// The answer to [`PingInput`].
#[derive(Debug)]
pub struct PingOutput {
    pub responder: String,
}

/// A client asks the frontend for the values of keys.
#[derive(Debug)]
pub struct GetRequest {
    pub request_id: String,
    pub keys: Vec<String>,
}

/// The answer to [`GetRequest`].
#[derive(Debug)]
pub struct GetResponse {
    pub request_id: String,
    pub success: bool,
    pub values: Vec<Value>,
}

/// A client asks the frontend to store values.
#[derive(Debug)]
pub struct PutRequest {
    pub request_id: String,
    pub values: Vec<Value>,
}

/// The answer to [`PutRequest`].
#[derive(Debug)]
pub struct PutResponse {
    pub request_id: String,
    pub success: bool,
}

} // verus!
