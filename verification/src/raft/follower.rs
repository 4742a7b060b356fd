//! What a follower does with the entries of a leader.

use vstd::prelude::*;

use crate::messages::{AppendEntriesInput, AppendEntriesOutput, LogEntry};
use crate::raft::data_store::{apply_failure, can_update, caught_up, check_update};
use crate::raft::error::StateMachineError;
use crate::raft::node::{Database, RaftImpl};
use crate::raft::peer::append_to_log;

verus! {

/// A log without what comes behind index `prev_log_index`, and with `entries` at its end.
pub open spec fn spliced(
    log: Seq<LogEntry>,
    prev_log_index: int,
    entries: Seq<LogEntry>,
) -> Seq<LogEntry> {
    if -1 <= prev_log_index < log.len() {
        log.take(prev_log_index + 1) + entries
    } else {
        log + entries
    }
}

/// The commit index of a follower once it has heard its leader's: it only grows, and does not
/// pass the end of the log.
pub open spec fn followed_commit(commit_index: int, leader_commit: int, log_len: int) -> int {
    if commit_index < leader_commit {
        if log_len - 1 <= leader_commit {
            log_len - 1
        } else {
            leader_commit
        }
    } else {
        commit_index
    }
}

impl<C> Database<C> {
    /// The log after an update from a leader.
    pub open spec fn log_after(self, input: AppendEntriesInput) -> Seq<LogEntry> {
        spliced(self.state.raft_data.log@, input.prev_log_index as int, input.entries@)
    }

    /// The commit index after an update from a leader.
    pub open spec fn commit_after(self, input: AppendEntriesInput) -> int {
        followed_commit(
            self.volatile_state.raft_data.commit_index as int,
            input.leader_commit as int,
            self.log_after(input).len() as int,
        )
    }

    /// Whether `after` is this node once it has made an update from a leader.
    pub open spec fn updated(self, input: AppendEntriesInput, after: Self) -> bool {
        &&& after.addr == self.addr
        &&& after.peer_connections == self.peer_connections
        &&& after.state.raft_data.node_type == self.state.raft_data.node_type
        &&& after.state.raft_data.current_term == self.state.raft_data.current_term
        &&& after.state.raft_data.voted_for == self.state.raft_data.voted_for
        &&& after.state.raft_data.log@ == self.log_after(input)
        &&& after.volatile_state.raft_data.commit_index == self.commit_after(input)
        &&& caught_up(
            self.log_after(input),
            self.commit_after(input),
            self.volatile_state.raft_data.last_applied as int,
            after.volatile_state.raft_data.last_applied as int,
            self.data_store@,
            after.data_store@,
        )
    }

    /// Whether this node gives `result` for an update from a leader and becomes `after`. It succeeds
    /// where everything that is committed could be applied.
    pub open spec fn made_update(
        self,
        input: AppendEntriesInput,
        result: Result<AppendEntriesOutput, StateMachineError>,
        after: Self,
    ) -> bool {
        &&& self.updated(input, after)
        &&& match result {
            Ok(output) => after.is_current() && output == (AppendEntriesOutput {
                success: true,
                term: 0,
            }),
            Err(error) => {
                let failed = after.volatile_state.raft_data.last_applied + 1;
                &&& !after.is_current()
                &&& error.is_apply_failure(apply_failure(self.log_after(input)[failed]))
            },
        }
    }

    /// Tells whether an update from a leader can be made, see [`FollowerActions::can_take`].
    pub fn check_take(&self, input: &AppendEntriesInput) -> (safe: bool)
        ensures
            safe <==> self.can_take(*input),
    {
        let log = &self.state.raft_data.log;
        if input.prev_log_index == i64::MAX || log.len() as u64 > i64::MAX as u64 {
            return false;
        }
        let prev: i64 = input.prev_log_index + 1;
        let keep: usize = if 0 <= prev && prev < log.len() as i64 {
            prev as usize
        } else {
            log.len()
        };
        assert(log@.take(keep as int) + input.entries@ =~= self.log_after(*input));
        if input.entries.len() as u64 > i64::MAX as u64 - keep as u64 {
            return false;
        }
        let commit_index: i64 = self.volatile_state.raft_data.commit_index;
        let last_index: i64 = keep as i64 + input.entries.len() as i64 - 1;
        let commit_after: i64 = if commit_index >= input.leader_commit {
            commit_index
        } else if last_index < 0 {
            return false;
        } else if last_index <= input.leader_commit {
            last_index
        } else {
            input.leader_commit
        };
        check_update(
            log,
            keep,
            &input.entries,
            self.volatile_state.raft_data.last_applied,
            commit_after,
        )
    }

    /// Whether the log has caught up with the commit index.
    pub open spec fn is_current(self) -> bool {
        self.volatile_state.raft_data.last_applied >= self.volatile_state.raft_data.commit_index
    }
}

/// What a follower does.
pub trait FollowerActions {
    /// Whether an update can be made: its indices fit, there is a log left, and applying it
    /// meets neither a `Delete` nor the end of the log.
    spec fn can_take(&self, input: AppendEntriesInput) -> bool;

    /// Takes the entries of a leader into the log, which is first cut off behind the
    /// previous log index. Applies them as far as the leader has committed them.
    ///
    /// `Err`: an entry could not be applied.
    fn make_update_from_peer(&mut self, append_entries_input: AppendEntriesInput) -> (result:
        Result<AppendEntriesOutput, StateMachineError>)
        requires
            old(self).can_take(append_entries_input),
    ;

    /// Adds entries to the end of the own log.
    fn write_to_logs(&mut self, log_entries: Vec<LogEntry>);
}

impl<C> FollowerActions for Database<C> {
    open spec fn can_take(&self, input: AppendEntriesInput) -> bool {
        &&& input.prev_log_index < i64::MAX
        &&& self.state.raft_data.log@.len() <= i64::MAX
        &&& self.log_after(input).len() <= i64::MAX
        &&& self.volatile_state.raft_data.commit_index < input.leader_commit ==> self.log_after(
            input,
        ).len() > 0
        &&& can_update(
            self.log_after(input),
            self.volatile_state.raft_data.last_applied as int,
            self.commit_after(input),
        )
    }

    fn make_update_from_peer(&mut self, append_entries_input: AppendEntriesInput) -> (result:
        Result<AppendEntriesOutput, StateMachineError>)
        ensures
            old(self).made_update(append_entries_input, result, *final(self)),
    {
        let keep: i64 = append_entries_input.prev_log_index + 1;
        if 0 <= keep && keep < self.state.raft_data.log.len() as i64 {
            self.state.raft_data.log.truncate(keep as usize);
        }
        let ghost kept = self.state.raft_data.log@;
        assert(kept + append_entries_input.entries@ =~= old(self).log_after(append_entries_input));

        self.write_to_logs(append_entries_input.entries);

        if self.volatile_state.raft_data.commit_index < append_entries_input.leader_commit {
            let last_index: i64 = self.state.raft_data.log.len() as i64 - 1;
            self.volatile_state.raft_data.commit_index = if last_index
                <= append_entries_input.leader_commit {
                last_index
            } else {
                append_entries_input.leader_commit
            };
        }
        match self.data_store.update_state_machine(
            &self.state.raft_data,
            &mut self.volatile_state.raft_data,
        ) {
            Ok(_) => Ok(AppendEntriesOutput { success: true, term: 0 }),
            Err(error) => Err(error),
        }
    }

    fn write_to_logs(&mut self, log_entries: Vec<LogEntry>)
        ensures
            final(self).addr == old(self).addr,
            final(self).peer_connections == old(self).peer_connections,
            final(self).state.raft_data.node_type == old(self).state.raft_data.node_type,
            final(self).state.raft_data.current_term == old(self).state.raft_data.current_term,
            final(self).state.raft_data.voted_for == old(self).state.raft_data.voted_for,
            final(self).state.raft_data.log@ == old(self).state.raft_data.log@ + log_entries@,
            final(self).volatile_state == old(self).volatile_state,
            final(self).data_store == old(self).data_store,
    {
        append_to_log(&mut self.state.raft_data, &log_entries);
    }
}

impl<C> FollowerActions for RaftImpl<C> {
    open spec fn can_take(&self, input: AppendEntriesInput) -> bool {
        self.inner.can_take(input)
    }

    fn make_update_from_peer(&mut self, append_entries_input: AppendEntriesInput) -> (result:
        Result<AppendEntriesOutput, StateMachineError>)
        ensures
            old(self).inner.made_update(append_entries_input, result, final(self).inner),
    {
        self.inner.make_update_from_peer(append_entries_input)
    }

    fn write_to_logs(&mut self, log_entries: Vec<LogEntry>)
        ensures
            final(self).inner.addr == old(self).inner.addr,
            final(self).inner.peer_connections == old(self).inner.peer_connections,
            final(self).inner.state.raft_data.node_type
                == old(self).inner.state.raft_data.node_type,
            final(self).inner.state.raft_data.current_term
                == old(self).inner.state.raft_data.current_term,
            final(self).inner.state.raft_data.voted_for
                == old(self).inner.state.raft_data.voted_for,
            final(self).inner.state.raft_data.log@ == old(self).inner.state.raft_data.log@
                + log_entries@,
            final(self).inner.volatile_state == old(self).inner.volatile_state,
            final(self).inner.data_store == old(self).inner.data_store,
    {
        self.inner.write_to_logs(log_entries)
    }
}

} // verus!
