//! The errors of a node.

use vstd::prelude::*;
use vstd::std_specs::convert::FromSpecImpl;

use crate::text::{joined, quoted, quoted_text};

verus! {

/// Why the log could not be written or applied.
#[derive(Debug)]
pub enum StateMachineError {
    FailedToWriteToLogs(String),
    FailedToApplyLogs(String),
}

impl StateMachineError {
    /// Whether this is [`StateMachineError::FailedToWriteToLogs`] with the given text.
    pub open spec fn is_write_failure(self, text: Seq<char>) -> bool {
        self matches StateMachineError::FailedToWriteToLogs(message) && message@ == text
    }

    /// Whether this is [`StateMachineError::FailedToApplyLogs`] with the given text.
    pub open spec fn is_apply_failure(self, text: Seq<char>) -> bool {
        self matches StateMachineError::FailedToApplyLogs(message) && message@ == text
    }
}

/// Why a leader could not share its log.
#[derive(Debug)]
pub enum LeaderError {
    NoLeaderStateFound(String),
    NoMinimumPeerCommitIndexFound(String),
    NotEnoughPeersUpdated(String),
    FailedToAppendEntries(String),
}

/// Why a candidate has no answer from a peer.
#[derive(Debug)]
pub enum CandidateError {
    NoClientFound(String),
    RequestForVoteFailure(String),
    CustomError(String),
}

/// Why a node could not join its cluster.
#[derive(Debug)]
pub enum SetupError {
    /// The addresses of the peers that did not answer.
    FailedToConnectToPeers(Vec<String>),
}

/// Why a node stopped its heartbeat.
#[derive(Debug)]
pub enum HeartbeatError {
    FailedToPingPeers(StateMachineError),
    CustomError(String),
}

impl From<StateMachineError> for HeartbeatError {
    fn from(err: StateMachineError) -> (result: HeartbeatError) {
        HeartbeatError::FailedToPingPeers(err)
    }
}

impl FromSpecImpl<StateMachineError> for HeartbeatError {
    open spec fn obeys_from_spec() -> bool {
        true
    }

    open spec fn from_spec(err: StateMachineError) -> HeartbeatError {
        HeartbeatError::FailedToPingPeers(err)
    }
}

impl From<String> for HeartbeatError {
    fn from(err: String) -> (result: HeartbeatError) {
        HeartbeatError::CustomError(err)
    }
}

impl FromSpecImpl<String> for HeartbeatError {
    open spec fn obeys_from_spec() -> bool {
        true
    }

    open spec fn from_spec(err: String) -> HeartbeatError {
        HeartbeatError::CustomError(err)
    }
}

/// Why a read failed. The one variant only gives the type a value: no read fails.
#[derive(Debug)]
pub enum ReadError {
    Unreadable,
}

/// Why a write failed.
#[derive(Debug)]
pub enum WriteError {
    NotTheLeader,
    FailedToParseLogs(StateMachineError),
    FailedToCommunicateToMajority(StateMachineError),
    FailedToUpdateStateMachine(StateMachineError),
}

impl StateMachineError {
    /// How the error is shown to developers.
    pub open spec fn shown(self) -> Seq<char> {
        match self {
            StateMachineError::FailedToWriteToLogs(message) => "FailedToWriteToLogs("@
                + quoted_text(message@) + ")"@,
            StateMachineError::FailedToApplyLogs(message) => "FailedToApplyLogs("@
                + quoted_text(message@) + ")"@,
        }
    }

    /// How the error is shown to developers.
    pub fn show(&self) -> (text: String)
        ensures
            text@ == self.shown(),
    {
        let (name, message) = match self {
            StateMachineError::FailedToWriteToLogs(message) => ("FailedToWriteToLogs(", message),
            StateMachineError::FailedToApplyLogs(message) => ("FailedToApplyLogs(", message),
        };
        joined(joined(name, quoted(message.as_str()).as_str()).as_str(), ")")
    }
}

impl WriteError {
    /// How the error is shown to developers.
    pub open spec fn shown(self) -> Seq<char> {
        match self {
            WriteError::NotTheLeader => "NotTheLeader"@,
            WriteError::FailedToParseLogs(error) => "FailedToParseLogs("@ + error.shown() + ")"@,
            WriteError::FailedToCommunicateToMajority(error) => "FailedToCommunicateToMajority("@
                + error.shown() + ")"@,
            WriteError::FailedToUpdateStateMachine(error) => "FailedToUpdateStateMachine("@
                + error.shown() + ")"@,
        }
    }

    /// How the error is shown to developers.
    pub fn show(&self) -> (text: String)
        ensures
            text@ == self.shown(),
    {
        let (name, error) = match self {
            WriteError::NotTheLeader => {
                return "NotTheLeader".to_owned();
            },
            WriteError::FailedToParseLogs(error) => ("FailedToParseLogs(", error),
            WriteError::FailedToCommunicateToMajority(error) => (
                "FailedToCommunicateToMajority(",
                error,
            ),
            WriteError::FailedToUpdateStateMachine(error) => (
                "FailedToUpdateStateMachine(",
                error,
            ),
        };
        joined(joined(name, error.show().as_str()).as_str(), ")")
    }

    /// The text of the internal failure that a client gets for this error.
    pub open spec fn status(self) -> Seq<char> {
        "Failed to write the new values due to: "@ + self.shown()
    }
}

/// The two failures of a state machine are told apart, and each keeps its text.
pub proof fn law_failures_are_told_apart(error: StateMachineError, text: Seq<char>)
    ensures
        error.is_write_failure(text) <==> error is FailedToWriteToLogs
            && error->FailedToWriteToLogs_0@ == text,
        error.is_apply_failure(text) <==> error is FailedToApplyLogs && error->FailedToApplyLogs_0@
            == text,
{
}

/// An error is shown as the name of its variant and, in brackets, what it holds.
pub proof fn law_errors_are_shown_by_name(error: StateMachineError, message: String)
    ensures
        StateMachineError::FailedToWriteToLogs(message).shown() == "FailedToWriteToLogs("@
            + quoted_text(message@) + ")"@,
        StateMachineError::FailedToApplyLogs(message).shown() == "FailedToApplyLogs("@
            + quoted_text(message@) + ")"@,
        WriteError::NotTheLeader.shown() == "NotTheLeader"@,
        WriteError::FailedToParseLogs(error).shown() == "FailedToParseLogs("@ + error.shown()
            + ")"@,
        WriteError::FailedToCommunicateToMajority(error).shown()
            == "FailedToCommunicateToMajority("@ + error.shown() + ")"@,
        WriteError::FailedToUpdateStateMachine(error).shown() == "FailedToUpdateStateMachine("@
            + error.shown() + ")"@,
{
}

/// A client is told why a write failed.
pub proof fn law_clients_learn_why_a_write_failed(error: WriteError)
    ensures
        error.status() == "Failed to write the new values due to: "@ + error.shown(),
{
}

} // verus!
