//! What holds of entries on their way from a leader to its followers, and of what is committed.

use vstd::prelude::*;
use vstd::set_lib::{lemma_int_range, lemma_len_subset, set_int_range};

use crate::messages::{
    AppendEntriesInput, AppendEntriesOutput, LogEntry, RequestVoteOutput, Value,
};
use crate::raft::data_store::caught_up;
use crate::raft::error::{LeaderError, StateMachineError};
use crate::raft::follower::FollowerActions;
use crate::raft::laws::{holders, law_each_acknowledgement_counts_once};
use crate::raft::leader::{
    can_advance, count_advanced, counted, is_advance_result, is_least_match, peer_advanced,
};
use crate::raft::node::{Database, RaftImpl};
use crate::raft::peer::{
    acknowledged, committed, fresh_peer, is_append_result, is_least_ok, is_majority, peer_after,
    CandidateActions, LeaderActions, Peer, PeerConnections, PeerData, PeerReply, PeerSetup,
};
use crate::raft::read_write::{stores_values, ReadAndWrite};
use crate::raft::state::{RaftNodeType, RaftVolatileData};
use crate::raft::storage_laws::{
    law_catching_up_keeps_the_rest, law_catching_up_stops_in_time, law_catching_up_stores_puts,
    law_what_can_be_applied,
};

verus! {

/// After an update a follower has committed at most what it had committed before or what its leader
/// has. Where its commit index moves, it becomes the smaller of the leader's commit index and the
/// last index of the new log.
pub proof fn law_followers_do_not_commit_ahead<C>(
    before: Database<C>,
    input: AppendEntriesInput,
    result: Result<AppendEntriesOutput, StateMachineError>,
    after: Database<C>,
)
    requires
        before.made_update(input, result, after),
    ensures
        ({
            let old_commit = before.volatile_state.raft_data.commit_index;
            let new_commit = after.volatile_state.raft_data.commit_index;
            let last_index = after.state.raft_data.log@.len() - 1;
            &&& input.leader_commit <= old_commit ==> new_commit == old_commit
            &&& input.leader_commit > old_commit ==> {
                &&& new_commit <= input.leader_commit
                &&& new_commit <= last_index
                &&& new_commit == input.leader_commit || new_commit == last_index
            }
        }),
{
}

/// An update applies entries only as far as they are committed, and passes none. It fails exactly
/// where it stops before that.
pub proof fn law_updates_apply_what_is_committed<C>(
    before: Database<C>,
    input: AppendEntriesInput,
    result: Result<AppendEntriesOutput, StateMachineError>,
    after: Database<C>,
)
    requires
        before.made_update(input, result, after),
    ensures
        ({
            let from = before.volatile_state.raft_data.last_applied;
            let applied = after.volatile_state.raft_data.last_applied;
            let commit_index = after.volatile_state.raft_data.commit_index;
            let log = after.state.raft_data.log@;
            &&& from <= applied
            &&& applied <= from || applied <= commit_index
            &&& result is Ok <==> commit_index <= applied
            &&& result is Ok ==> result->Ok_0.success && result->Ok_0.term == 0
            &&& result is Err ==> {
                let failed = log[applied + 1];
                &&& failed.log_action != 2
                &&& failed.log_action != 0 || failed.value is None
                &&& result->Err_0 is FailedToApplyLogs
                &&& result->Err_0->FailedToApplyLogs_0@ == if 0 <= failed.log_action <= 2 {
                    "Failed to get log entries value"@
                } else {
                    "No log action was stored"@
                }
            }
        }),
{
    law_catching_up_stops_in_time(
        after.state.raft_data.log@,
        after.volatile_state.raft_data.commit_index as int,
        before.volatile_state.raft_data.last_applied as int,
        after.volatile_state.raft_data.last_applied as int,
        before.data_store@,
        after.data_store@,
    );
}

/// An update keeps the log up to the entry that precedes the new ones, and puts the new ones behind
/// it. Where there is no such entry, it keeps the whole log.
pub proof fn law_updates_splice_the_log<C>(
    before: Database<C>,
    input: AppendEntriesInput,
    result: Result<AppendEntriesOutput, StateMachineError>,
    after: Database<C>,
)
    requires
        before.made_update(input, result, after),
    ensures
        ({
            let log = before.state.raft_data.log@;
            let new_log = after.state.raft_data.log@;
            let kept = new_log.len() - input.entries@.len();
            &&& -1 <= input.prev_log_index < log.len() ==> kept == input.prev_log_index + 1
            &&& input.prev_log_index < -1 || input.prev_log_index >= log.len() ==> kept == log.len()
            &&& forall|i: int| 0 <= i < kept ==> #[trigger] new_log[i] == log[i]
            &&& forall|i: int|
                0 <= i < input.entries@.len() ==> new_log[kept + i] == #[trigger] input.entries@[i]
        }),
{
}

/// An update leaves the term, the vote, the part, the address and the peers of a node as they are.
pub proof fn law_updates_touch_only_log_and_data<C>(
    before: Database<C>,
    input: AppendEntriesInput,
    result: Result<AppendEntriesOutput, StateMachineError>,
    after: Database<C>,
)
    requires
        before.made_update(input, result, after),
    ensures
        after.state.raft_data.current_term == before.state.raft_data.current_term,
        after.state.raft_data.voted_for == before.state.raft_data.voted_for,
        after.state.raft_data.node_type == before.state.raft_data.node_type,
        after.addr == before.addr,
        after.peer_connections == before.peer_connections,
{
}

/// After an update a key has the value of the last put on it among the entries that were applied, and
/// a key without such a put has what it had before.
pub proof fn law_updates_store_what_is_committed<C>(
    before: Database<C>,
    input: AppendEntriesInput,
    result: Result<AppendEntriesOutput, StateMachineError>,
    after: Database<C>,
    key: Seq<char>,
)
    requires
        before.made_update(input, result, after),
    ensures
        ({
            let log = after.state.raft_data.log@;
            let from = before.volatile_state.raft_data.last_applied;
            let applied = after.volatile_state.raft_data.last_applied;
            &&& forall|put: int|
                from < put <= applied && (#[trigger] log[put]).log_action == 0
                    && log[put].value->0.key@ == key && (forall|i: int|
                    put < i <= applied && (#[trigger] log[i]).log_action == 0
                        ==> log[i].value->0.key@ != key) ==> after.data_store@.contains_key(key)
                    && after.data_store@[key] == log[put].value->0.value@
            &&& (forall|i: int|
                from < i <= applied && (#[trigger] log[i]).log_action == 0 ==> log[i].value->0.key@
                    != key) ==> {
                &&& after.data_store@.contains_key(key) == before.data_store@.contains_key(key)
                &&& before.data_store@.contains_key(key) ==> after.data_store@[key]
                    == before.data_store@[key]
            }
        }),
{
    lemma_stored_by_key(
        after.state.raft_data.log@,
        after.volatile_state.raft_data.commit_index as int,
        before.volatile_state.raft_data.last_applied as int,
        after.volatile_state.raft_data.last_applied as int,
        before.data_store@,
        after.data_store@,
        key,
    );
}

/// What catching up does to one key.
proof fn lemma_stored_by_key(
    log: Seq<LogEntry>,
    commit_index: int,
    from: int,
    applied: int,
    before: Map<Seq<char>, Seq<char>>,
    after: Map<Seq<char>, Seq<char>>,
    key: Seq<char>,
)
    requires
        caught_up(log, commit_index, from, applied, before, after),
    ensures
        forall|put: int|
            from < put <= applied && (#[trigger] log[put]).log_action == 0
                && log[put].value->0.key@ == key && (forall|i: int|
                put < i <= applied && (#[trigger] log[i]).log_action == 0 ==> log[i].value->0.key@
                    != key) ==> after.contains_key(key) && after[key] == log[put].value->0.value@,
        (forall|i: int|
            from < i <= applied && (#[trigger] log[i]).log_action == 0 ==> log[i].value->0.key@
                != key) ==> {
            &&& after.contains_key(key) == before.contains_key(key)
            &&& before.contains_key(key) ==> after[key] == before[key]
        },
{
    assert forall|put: int|
        from < put <= applied && (#[trigger] log[put]).log_action == 0 && log[put].value->0.key@
            == key && (forall|i: int|
            put < i <= applied && (#[trigger] log[i]).log_action == 0 ==> log[i].value->0.key@
                != key) implies after.contains_key(key) && after[key]
        == log[put].value->0.value@ by {
        law_catching_up_stores_puts(log, commit_index, from, put, applied, before, after);
    }
    if forall|i: int|
        from < i <= applied && (#[trigger] log[i]).log_action == 0 ==> log[i].value->0.key@ != key {
        law_catching_up_keeps_the_rest(log, commit_index, from, applied, before, after, key);
    }
}

/// An update can be made exactly if its indices fit, the new log is not empty where the commit index
/// would move, and every entry that comes to be applied is there and no delete.
pub proof fn law_what_updates_can_be_made<C>(
    before: Database<C>,
    input: AppendEntriesInput,
    new_log: Seq<LogEntry>,
    new_commit: int,
)
    requires
        -1 <= input.prev_log_index < before.state.raft_data.log@.len() ==> new_log
            == before.state.raft_data.log@.subrange(0, input.prev_log_index + 1) + input.entries@,
        input.prev_log_index < -1 || input.prev_log_index >= before.state.raft_data.log@.len()
            ==> new_log == before.state.raft_data.log@ + input.entries@,
        input.leader_commit <= before.volatile_state.raft_data.commit_index ==> new_commit
            == before.volatile_state.raft_data.commit_index,
        input.leader_commit > before.volatile_state.raft_data.commit_index ==> new_commit
            <= input.leader_commit && new_commit < new_log.len() && (new_commit
            == input.leader_commit || new_commit == new_log.len() - 1),
    ensures
        before.can_take(input) <==> {
            &&& input.prev_log_index < i64::MAX
            &&& before.state.raft_data.log@.len() <= i64::MAX
            &&& new_log.len() <= i64::MAX
            &&& input.leader_commit > before.volatile_state.raft_data.commit_index ==> new_log.len()
                > 0
            &&& forall|i: int|
                before.volatile_state.raft_data.last_applied < i <= new_commit && (forall|j: int|
                    before.volatile_state.raft_data.last_applied < j < i ==> (
                    #[trigger] new_log[j]).log_action == 2 || (new_log[j].log_action == 0
                        && new_log[j].value is Some)) ==> 0 <= i < new_log.len() && (
                #[trigger] new_log[i]).log_action != 1
        },
{
    assert(new_log =~= before.log_after(input));
    law_what_can_be_applied(
        new_log,
        before.volatile_state.raft_data.last_applied as int,
        new_commit,
    );
}

/// A node refuses entries of a leader exactly where the leader's term is over, or where its log has no
/// entry of the given term at the index that precedes them. Index zero precedes in every log. It
/// then stays as it is, and answers with its own term or, where that is not the reason, with that of
/// its last entry.
pub proof fn law_nodes_refuse_what_does_not_fit<C>(
    before: Database<C>,
    request: AppendEntriesInput,
    result: Result<AppendEntriesOutput, String>,
    after: Database<C>,
)
    requires
        before.answered_append(request, result, after),
    ensures
        ({
            let log = before.state.raft_data.log@;
            let stale = request.term < before.state.raft_data.current_term;
            let prev = request.prev_log_index as int;
            let fits = prev == 0 || (0 < prev < log.len() && log[prev].term
                == request.prev_log_term);
            &&& (result is Ok && !result->Ok_0.success) <==> stale || !fits
            &&& stale || !fits ==> after == before
            &&& stale ==> result->Ok_0.term == before.state.raft_data.current_term
            &&& !stale && !fits ==> result->Ok_0.term == log.last().term
        }),
{
}

/// A node that takes entries follows their leader and knows it to be alive. Its commit index moves at
/// most to the leader's: where it moves, to the smaller of that and the last index of the new log.
pub proof fn law_nodes_follow_whom_they_accept<C>(
    before: Database<C>,
    request: AppendEntriesInput,
    result: Result<AppendEntriesOutput, String>,
    after: Database<C>,
)
    requires
        before.answered_append(request, result, after),
        result is Ok ==> result->Ok_0.success,
    ensures
        after.state.raft_data.node_type == RaftNodeType::Follower(true),
        after.state.raft_data.current_term == before.state.raft_data.current_term,
        after.state.raft_data.voted_for == before.state.raft_data.voted_for,
        after.addr == before.addr,
        after.peer_connections == before.peer_connections,
        ({
            let old_commit = before.volatile_state.raft_data.commit_index;
            let new_commit = after.volatile_state.raft_data.commit_index;
            let last_index = after.state.raft_data.log@.len() - 1;
            &&& request.leader_commit <= old_commit ==> new_commit == old_commit
            &&& request.leader_commit > old_commit ==> {
                &&& new_commit <= request.leader_commit
                &&& new_commit <= last_index
                &&& new_commit == request.leader_commit || new_commit == last_index
            }
        }),
        ({
            let from = before.volatile_state.raft_data.last_applied;
            let applied = after.volatile_state.raft_data.last_applied;
            let commit_index = after.volatile_state.raft_data.commit_index;
            &&& from <= applied
            &&& applied <= from || applied <= commit_index
            &&& result is Ok <==> commit_index <= applied
            &&& result is Ok ==> result->Ok_0.term == 0
            &&& result is Err ==> {
                let failed = after.state.raft_data.log@[applied + 1];
                &&& failed.log_action != 2
                &&& failed.log_action != 0 || failed.value is None
                &&& result->Err_0@ == "Failed to update the state machine"@
            }
        }),
{
    law_catching_up_stops_in_time(
        after.state.raft_data.log@,
        after.volatile_state.raft_data.commit_index as int,
        before.volatile_state.raft_data.last_applied as int,
        after.volatile_state.raft_data.last_applied as int,
        before.data_store@,
        after.data_store@,
    );
}

/// A node that takes entries keeps its log up to the preceding entry, has the new ones behind it, and
/// nothing else.
pub proof fn law_accepted_entries_end_the_log<C>(
    before: Database<C>,
    request: AppendEntriesInput,
    result: Result<AppendEntriesOutput, String>,
    after: Database<C>,
)
    requires
        before.state.raft_data.log@.len() > 0,
        before.answered_append(request, result, after),
        result is Ok ==> result->Ok_0.success,
    ensures
        ({
            let log = before.state.raft_data.log@;
            let new_log = after.state.raft_data.log@;
            let kept = request.prev_log_index + 1;
            &&& 0 < kept <= log.len()
            &&& new_log.len() == kept + request.entries@.len()
            &&& forall|i: int| 0 <= i < kept ==> #[trigger] new_log[i] == log[i]
            &&& forall|i: int|
                0 <= i < request.entries@.len() ==> new_log[kept + i]
                    == #[trigger] request.entries@[i]
        }),
{
}

/// When a node answers a leader, a key gets the value of the last put on it among the entries that
/// are applied. Without one it stays.
pub proof fn law_accepted_entries_are_stored<C>(
    before: Database<C>,
    request: AppendEntriesInput,
    result: Result<AppendEntriesOutput, String>,
    after: Database<C>,
    key: Seq<char>,
)
    requires
        before.answered_append(request, result, after),
    ensures
        ({
            let log = after.state.raft_data.log@;
            let from = before.volatile_state.raft_data.last_applied;
            let applied = after.volatile_state.raft_data.last_applied;
            &&& forall|put: int|
                from < put <= applied && (#[trigger] log[put]).log_action == 0
                    && log[put].value->0.key@ == key && (forall|i: int|
                    put < i <= applied && (#[trigger] log[i]).log_action == 0
                        ==> log[i].value->0.key@ != key) ==> after.data_store@.contains_key(key)
                    && after.data_store@[key] == log[put].value->0.value@
            &&& (forall|i: int|
                from < i <= applied && (#[trigger] log[i]).log_action == 0 ==> log[i].value->0.key@
                    != key) ==> {
                &&& after.data_store@.contains_key(key) == before.data_store@.contains_key(key)
                &&& before.data_store@.contains_key(key) ==> after.data_store@[key]
                    == before.data_store@[key]
            }
        }),
{
    if before.state.raft_data.accepts(request) {
        lemma_stored_by_key(
            after.state.raft_data.log@,
            after.volatile_state.raft_data.commit_index as int,
            before.volatile_state.raft_data.last_applied as int,
            after.volatile_state.raft_data.last_applied as int,
            before.data_store@,
            after.data_store@,
            key,
        );
    }
}

/// The entries for a list of values put those values, one each and in order, in the given term.
pub proof fn law_entries_put_the_values(
    entries: Seq<LogEntry>,
    values: Seq<Value>,
    term: i64,
    i: int,
)
    requires
        stores_values(entries, values, term),
        0 <= i < values.len(),
    ensures
        entries.len() == values.len(),
        entries[i].log_action == 0,
        entries[i].value is Some,
        entries[i].value->0.key == values[i].key,
        entries[i].value->0.value == values[i].value,
        entries[i].term == term,
{
    assert(entries[i].value == Some(values[i]));
}

/// A leader that writes adds one put for each value, of its current term, to the end of its log. So
/// after a write of at least one value its log ends with its current term.
pub proof fn law_writes_carry_the_leaders_term<C>(
    before: Database<C>,
    values: Seq<Value>,
    message: AppendEntriesInput,
    after: Database<C>,
)
    requires
        before.proposed(values, message, after),
    ensures
        ({
            let log = before.state.raft_data.log@;
            let new_log = after.state.raft_data.log@;
            let term = before.state.raft_data.current_term;
            &&& new_log.len() == log.len() + values.len()
            &&& forall|i: int| 0 <= i < log.len() ==> #[trigger] new_log[i] == log[i]
            &&& forall|i: int|
                #![trigger values[i]]
                0 <= i < values.len() ==> {
                    &&& new_log[log.len() + i].log_action == 0
                    &&& new_log[log.len() + i].value == Some(values[i])
                    &&& new_log[log.len() + i].term == term
                }
            &&& values.len() > 0 ==> new_log.last().term == term
        }),
{
    let log = before.state.raft_data.log@;
    let new_log = after.state.raft_data.log@;
    assert forall|i: int|
        #![trigger values[i]]
        0 <= i < values.len() implies new_log[log.len() + i].log_action == 0 && new_log[log.len()
        + i].value == Some(values[i]) && new_log[log.len() + i].term
        == before.state.raft_data.current_term by {
        assert(new_log[log.len() + i] == message.entries@[i]);
    }
    if values.len() > 0 {
        assert(values[values.len() - 1] == values.last());
    }
}

/// What a leader sends for a write is what it has added to its log, behind the entry that was its last,
/// in its term and with what it has committed. Nothing but its log changes.
pub proof fn law_writes_are_sent_as_written<C>(
    before: Database<C>,
    values: Seq<Value>,
    message: AppendEntriesInput,
    after: Database<C>,
)
    requires
        before.proposed(values, message, after),
    ensures
        message.entries@ == after.state.raft_data.log@.skip(before.state.raft_data.log@.len() as int),
        message.entries@.len() == values.len(),
        message.term == before.state.raft_data.current_term,
        message.leader_id@ == before.addr.text@,
        message.prev_log_index + 1 == before.state.raft_data.log@.len(),
        message.prev_log_term == before.state.raft_data.log@.last().term,
        message.leader_commit == before.volatile_state.raft_data.commit_index,
        after.state.raft_data.current_term == before.state.raft_data.current_term,
        after.state.raft_data.voted_for == before.state.raft_data.voted_for,
        after.state.raft_data.node_type == before.state.raft_data.node_type,
        after.volatile_state == before.volatile_state,
        after.data_store == before.data_store,
        after.peer_connections == before.peer_connections,
        after.addr == before.addr,
{
    assert(message.entries@ =~= after.state.raft_data.log@.skip(
        before.state.raft_data.log@.len() as int,
    ));
}

/// A follower with the leader's log and no later term takes what the leader writes, and then has
/// the leader's log again. It commits of it no more than the leader had committed before the write.
pub proof fn law_writes_reach_followers_uncommitted<C, D>(
    leader: Database<C>,
    values: Seq<Value>,
    message: AppendEntriesInput,
    written: Database<C>,
    follower: Database<D>,
    result: Result<AppendEntriesOutput, String>,
    after: Database<D>,
)
    requires
        leader.state.raft_data.log@.len() > 0,
        leader.proposed(values, message, written),
        follower.state.raft_data.log@ == leader.state.raft_data.log@,
        follower.state.raft_data.current_term <= leader.state.raft_data.current_term,
        follower.volatile_state.raft_data.last_applied
            <= follower.volatile_state.raft_data.commit_index,
        follower.volatile_state.raft_data.commit_index
            <= leader.volatile_state.raft_data.commit_index,
        follower.answered_append(message, result, after),
    ensures
        result is Ok ==> result->Ok_0.success,
        after.state.raft_data.log@ == written.state.raft_data.log@,
        after.volatile_state.raft_data.commit_index
            <= leader.volatile_state.raft_data.commit_index,
        after.volatile_state.raft_data.last_applied
            <= leader.volatile_state.raft_data.commit_index,
{
    assert(leader.state.raft_data.log@.take(leader.state.raft_data.log@.len() as int)
        =~= leader.state.raft_data.log@);
}

/// More than half of the nodes of a cluster are more than the others.
pub proof fn law_majorities_outnumber_the_rest(count: int, peers: int)
    ensures
        is_majority(count, peers) <==> count > peers + 1 - count,
{
}

/// A log becomes committed exactly if it reaches at least to the commit index, at least one peer that
/// can be reached took the entries, and those peers and the leader outnumber the other nodes.
pub proof fn law_commits_need_a_majority<C>(
    peers: Seq<Peer<C>>,
    replies: Seq<PeerReply<AppendEntriesOutput>>,
    last_index: int,
    commit_index: int,
)
    ensures
        ({
            let took = set_int_range(0, replies.len() as int).filter(
                |i: int|
                    peers[i].data.connection is Some && peers[i].data.leader_state is Some
                        && replies[i] is Replied && replies[i]->Replied_0.success,
            );
            committed(peers, replies, last_index, commit_index) <==> last_index >= commit_index
                && took.len() > 0 && 1 + took.len() > replies.len() - took.len()
        }),
{
    let n = replies.len() as int;
    let took = set_int_range(0, n).filter(
        |i: int|
            peers[i].data.connection is Some && peers[i].data.leader_state is Some
                && replies[i] is Replied && replies[i]->Replied_0.success,
    );
    assert(took =~= holders(peers, replies, n));
    law_each_acknowledgement_counts_once(peers, replies, n);
    lemma_int_range(0, n);
    lemma_len_subset(took, set_int_range(0, n));
}

/// Where no peer takes the entries of a leader, nothing becomes committed or applied.
pub proof fn law_nothing_is_committed_alone<C>(
    before: Database<C>,
    replies: Seq<PeerReply<AppendEntriesOutput>>,
    after: Database<C>,
)
    requires
        before.concluded(replies, after),
        forall|i: int|
            0 <= i < replies.len() ==> (#[trigger] replies[i]) is Unreached
                || !replies[i]->Replied_0.success,
    ensures
        after.volatile_state == before.volatile_state,
        after.data_store == before.data_store,
        after.state == before.state,
{
    let n = replies.len() as int;
    law_each_acknowledgement_counts_once(before.peer_connections.peers@, replies, n);
    assert forall|i: int| 0 <= i < n implies !acknowledged(
        before.peer_connections.peers@[i].data,
        replies[i],
    ) by {
        assert(replies[i] is Unreached || !replies[i]->Replied_0.success);
    }
    assert(holders(before.peer_connections.peers@, replies, n) =~= Set::<int>::empty());
}

/// Where every peer can be reached and takes the entries, the whole log of a leader with peers becomes
/// committed.
pub proof fn law_all_together_commit<C>(
    before: Database<C>,
    replies: Seq<PeerReply<AppendEntriesOutput>>,
    after: Database<C>,
)
    requires
        before.concluded(replies, after),
        replies.len() > 0,
        before.volatile_state.raft_data.commit_index < before.state.raft_data.log@.len(),
        forall|i: int|
            0 <= i < replies.len() ==> (#[trigger] replies[i]) is Replied
                && replies[i]->Replied_0.success
                && before.peer_connections.peers@[i].data.connection is Some
                && before.peer_connections.peers@[i].data.leader_state is Some,
    ensures
        after.volatile_state.raft_data.commit_index + 1 == before.state.raft_data.log@.len(),
{
    let n = replies.len() as int;
    let peers = before.peer_connections.peers@;
    law_each_acknowledgement_counts_once(peers, replies, n);
    lemma_int_range(0, n);
    assert forall|i: int| 0 <= i < n implies acknowledged(
        peers[i].data,
        replies[i],
    ) by {
        assert(replies[i] is Replied);
    }
    assert(holders(peers, replies, n) =~= set_int_range(0, n));
}

/// Ending a write leaves the log, the term and the vote. The commit index stays, or the whole log
/// becomes committed and is applied until an entry does not apply.
pub proof fn law_ended_writes_commit_all_or_nothing<C>(
    before: Database<C>,
    replies: Seq<PeerReply<AppendEntriesOutput>>,
    after: Database<C>,
)
    requires
        before.concluded(replies, after),
    ensures
        after.state == before.state,
        after.addr == before.addr,
        ({
            let took = set_int_range(0, replies.len() as int).filter(
                |i: int|
                    before.peer_connections.peers@[i].data.connection is Some
                        && before.peer_connections.peers@[i].data.leader_state is Some
                        && replies[i] is Replied && replies[i]->Replied_0.success,
            );
            let last_index = before.state.raft_data.log@.len() - 1;
            let old_volatile = before.volatile_state.raft_data;
            let new_volatile = after.volatile_state.raft_data;
            if last_index >= old_volatile.commit_index && took.len() > 0 && 1 + took.len()
                > replies.len() - took.len() {
                &&& new_volatile.commit_index == last_index
                &&& old_volatile.last_applied <= new_volatile.last_applied
                &&& new_volatile.last_applied <= old_volatile.last_applied
                    || new_volatile.last_applied <= last_index
                &&& new_volatile.last_applied < last_index ==> {
                    let failed = before.state.raft_data.log@[new_volatile.last_applied + 1];
                    failed.log_action != 2 && (failed.log_action != 0 || failed.value is None)
                }
            } else {
                &&& after.volatile_state == before.volatile_state
                &&& after.data_store == before.data_store
            }
        }),
{
    law_commits_need_a_majority(
        before.peer_connections.peers@,
        replies,
        before.state.raft_data.log@.len() - 1,
        before.volatile_state.raft_data.commit_index as int,
    );
    if before.commits(replies) {
        law_catching_up_stops_in_time(
            before.state.raft_data.log@,
            after.volatile_state.raft_data.commit_index as int,
            before.volatile_state.raft_data.last_applied as int,
            after.volatile_state.raft_data.last_applied as int,
            before.data_store@,
            after.data_store@,
        );
    }
}

/// When the answers of the peers end a write, a key gets the value of the last put on it among the
/// entries that are applied. Without one it stays.
pub proof fn law_ended_writes_are_stored<C>(
    before: Database<C>,
    replies: Seq<PeerReply<AppendEntriesOutput>>,
    after: Database<C>,
    key: Seq<char>,
)
    requires
        before.concluded(replies, after),
    ensures
        ({
            let log = before.state.raft_data.log@;
            let from = before.volatile_state.raft_data.last_applied;
            let applied = after.volatile_state.raft_data.last_applied;
            &&& forall|put: int|
                from < put <= applied && (#[trigger] log[put]).log_action == 0
                    && log[put].value->0.key@ == key && (forall|i: int|
                    put < i <= applied && (#[trigger] log[i]).log_action == 0
                        ==> log[i].value->0.key@ != key) ==> after.data_store@.contains_key(key)
                    && after.data_store@[key] == log[put].value->0.value@
            &&& (forall|i: int|
                from < i <= applied && (#[trigger] log[i]).log_action == 0 ==> log[i].value->0.key@
                    != key) ==> {
                &&& after.data_store@.contains_key(key) == before.data_store@.contains_key(key)
                &&& before.data_store@.contains_key(key) ==> after.data_store@[key]
                    == before.data_store@[key]
            }
        }),
{
    if before.commits(replies) {
        lemma_stored_by_key(
            before.state.raft_data.log@,
            after.volatile_state.raft_data.commit_index as int,
            before.volatile_state.raft_data.last_applied as int,
            after.volatile_state.raft_data.last_applied as int,
            before.data_store@,
            after.data_store@,
            key,
        );
    }
}

/// A leader learns of a peer that took the entries that it has the whole log, and of any other peer
/// nothing.
pub proof fn law_leaders_learn_from_answers<C>(
    peer: PeerData<C>,
    reply: PeerReply<AppendEntriesOutput>,
    last_index: i64,
)
    requires
        0 <= last_index < i64::MAX,
    ensures
        ({
            let after = peer_after(peer, reply, last_index as int);
            &&& after.connection == peer.connection
            &&& if peer.connection is Some && peer.leader_state is Some && reply is Replied
                && reply->Replied_0.success {
                &&& after.leader_state is Some
                &&& after.leader_state->0.match_index == last_index
                &&& after.leader_state->0.next_index == last_index + 1
            } else {
                after.leader_state == peer.leader_state
            }
        }),
{
}

/// The result for a peer is the last index where the peer took the entries. It names the peer where it
/// was asked and did not, and says so where it could not be asked.
pub proof fn law_results_tell_what_peers_did<C>(
    result: Result<i64, LeaderError>,
    addr: Seq<char>,
    peer: PeerData<C>,
    reply: PeerReply<AppendEntriesOutput>,
    last_index: i64,
)
    requires
        is_append_result(result, addr, peer, reply, last_index as int),
    ensures
        result is Ok <==> peer.connection is Some && peer.leader_state is Some && reply is Replied
            && reply->Replied_0.success,
        result is Ok ==> result->Ok_0 == last_index,
        result is Err && peer.connection is Some && peer.leader_state is Some ==> result->Err_0
            is FailedToAppendEntries && result->Err_0->FailedToAppendEntries_0@ == addr,
        peer.connection is None || peer.leader_state is None ==> result->Err_0
            is NoLeaderStateFound && result->Err_0->NoLeaderStateFound_0@
            == "No leader state found"@,
{
}

/// The smallest index among results is one of them, and none is smaller.
pub proof fn law_least_indices_are_least(
    results: Seq<Result<i64, LeaderError>>,
    least: i64,
    other: i64,
)
    requires
        is_least_ok(results, least),
        results.contains(Ok(other)),
    ensures
        results.contains(Ok(least)),
        least <= other,
{
    let i = choose|i: int| 0 <= i < results.len() && results[i] == Ok::<i64, LeaderError>(other);
    assert(results[i] is Ok);
}

/// A node that connects to a peer expects nothing in its log but the placeholder.
pub proof fn law_fresh_peers_start_over<C>(client: C)
    ensures
        fresh_peer(client).connection == Some(client),
        fresh_peer(client).leader_state is Some,
        fresh_peer(client).leader_state->0.next_index == 1,
        fresh_peer(client).leader_state->0.match_index == 0,
{
}

/// A node has room for a peer as long as the cluster can be counted in an `i64`, and takes the answers
/// of its peers where there is one for each.
pub proof fn law_answers_are_one_per_peer<C>(
    connections: PeerConnections<C>,
    entries: Seq<PeerReply<AppendEntriesOutput>>,
    votes: Seq<PeerReply<RequestVoteOutput>>,
    addr: Seq<char>,
)
    requires
        connections.wf(),
    ensures
        connections.ready(),
        connections.has_room() <==> connections.peers@.len() < i64::MAX - 1,
        connections.usable(entries) <==> entries.len() == connections.peers@.len(),
        connections.answered(votes) <==> votes.len() == connections.peers@.len(),
        connections.knows(addr) <==> connections.peers@.map_values(
            |peer: Peer<C>| peer.addr@,
        ).contains(addr),
{
    let addrs = connections.peers@.map_values(|peer: Peer<C>| peer.addr@);
    if connections.knows(addr) {
        let i = choose|i: int|
            0 <= i < connections.peers@.len() && (#[trigger] connections.peers@[i]).addr@ == addr;
        assert(addrs[i] == addr);
    }
    if addrs.contains(addr) {
        let i = choose|i: int| 0 <= i < addrs.len() && addrs[i] == addr;
        assert(connections.peers@[i].addr@ == addr);
    }
}

/// A write can be started exactly while the log with its entries can be indexed with an `i64`.
pub proof fn law_writes_need_room<C>(node: Database<C>, count: int)
    requires
        node.wf(),
    ensures
        node.can_write(count) <==> node.state.raft_data.log@.len() + count <= i64::MAX,
{
}

/// A write can be ended exactly where there is one answer for each peer and, if the log becomes
/// committed through them, every entry that comes to be applied is there and no delete.
pub proof fn law_what_writes_can_be_ended<C>(
    node: Database<C>,
    replies: Seq<PeerReply<AppendEntriesOutput>>,
)
    requires
        node.wf(),
    ensures
        ({
            let log = node.state.raft_data.log@;
            let from = node.volatile_state.raft_data.last_applied;
            let took = set_int_range(0, replies.len() as int).filter(
                |i: int|
                    node.peer_connections.peers@[i].data.connection is Some
                        && node.peer_connections.peers@[i].data.leader_state is Some
                        && replies[i] is Replied && replies[i]->Replied_0.success,
            );
            let commits = log.len() - 1 >= node.volatile_state.raft_data.commit_index && took.len()
                > 0 && 1 + took.len() > replies.len() - took.len();
            node.can_conclude(replies) <==> replies.len() == node.peer_connections.peers@.len() && (
            commits ==> forall|i: int|
                from < i <= log.len() - 1 && (forall|j: int|
                    from < j < i ==> (#[trigger] log[j]).log_action == 2 || (log[j].log_action == 0
                        && log[j].value is Some)) ==> 0 <= i < log.len() && (
                #[trigger] log[i]).log_action != 1)
        }),
{
    law_commits_need_a_majority(
        node.peer_connections.peers@,
        replies,
        node.state.raft_data.log@.len() - 1,
        node.volatile_state.raft_data.commit_index as int,
    );
    law_what_can_be_applied(
        node.state.raft_data.log@,
        node.volatile_state.raft_data.last_applied as int,
        node.state.raft_data.log@.len() - 1,
    );
}

/// The indices of a peer grow by the number of entries that it took, and by nothing where it did not.
pub proof fn law_peers_advance_by_what_they_took<C>(
    peer: PeerData<C>,
    reply: PeerReply<AppendEntriesOutput>,
    entries: int,
)
    requires
        can_advance(peer, entries),
        0 <= entries,
    ensures
        ({
            let after = peer_advanced(peer, reply, entries);
            &&& after.connection == peer.connection
            &&& if peer.connection is Some && peer.leader_state is Some && reply is Replied
                && reply->Replied_0.success {
                &&& after.leader_state is Some
                &&& after.leader_state->0.match_index - peer.leader_state->0.match_index == entries
                &&& after.leader_state->0.next_index - peer.leader_state->0.next_index == entries
            } else {
                after.leader_state == peer.leader_state
            }
        }),
{
}

/// A peer can always take entries while its indices stay within an `i64`.
pub proof fn law_peers_can_advance_while_there_is_room<C>(peer: PeerData<C>, entries: int)
    ensures
        can_advance(peer, entries) <==> (peer.connection is None || peer.leader_state is None || (
        peer.leader_state->0.next_index > i64::MIN && peer.leader_state->0.next_index + entries
            <= i64::MAX && peer.leader_state->0.match_index + entries <= i64::MAX)),
{
}

/// The result for a peer that is followed by its own indices is the index that it has reached where
/// it took the entries.
pub proof fn law_results_tell_how_far_peers_are<C>(
    result: Result<i64, LeaderError>,
    addr: Seq<char>,
    peer: PeerData<C>,
    reply: PeerReply<AppendEntriesOutput>,
    entries: int,
)
    requires
        is_advance_result(result, addr, peer, reply, entries),
        can_advance(peer, entries),
        0 <= entries,
    ensures
        result is Ok <==> peer.connection is Some && peer.leader_state is Some && reply is Replied
            && reply->Replied_0.success,
        result is Ok ==> result->Ok_0 - peer.leader_state->0.match_index == entries,
        result is Err && peer.connection is Some && peer.leader_state is Some ==> result->Err_0
            is FailedToAppendEntries && result->Err_0->FailedToAppendEntries_0@ == addr,
        peer.connection is None || peer.leader_state is None ==> result->Err_0
            is NoLeaderStateFound && result->Err_0->NoLeaderStateFound_0@
            == "No leader state found"@,
{
}

/// Counted are so many different peers: those that took the entries and have reached the commit index
/// with them.
pub proof fn law_each_advance_counts_once<C>(
    peers: Seq<Peer<C>>,
    replies: Seq<PeerReply<AppendEntriesOutput>>,
    entries: int,
    commit_index: int,
    n: int,
)
    requires
        0 <= n,
    ensures
        count_advanced(peers, replies, entries, commit_index, n) == set_int_range(0, n).filter(
            |i: int|
                peers[i].data.connection is Some && peers[i].data.leader_state is Some
                    && replies[i] is Replied && replies[i]->Replied_0.success
                    && peers[i].data.leader_state->0.match_index + entries >= commit_index,
        ).len(),
    decreases n,
{
    let advanced = |i: int|
        peers[i].data.connection is Some && peers[i].data.leader_state is Some && replies[i]
            is Replied && replies[i]->Replied_0.success
            && peers[i].data.leader_state->0.match_index + entries >= commit_index;
    let all = set_int_range(0, n).filter(advanced);
    lemma_int_range(0, n);
    if n > 0 {
        law_each_advance_counts_once(peers, replies, entries, commit_index, n - 1);
        lemma_int_range(0, n - 1);
        let before = set_int_range(0, n - 1).filter(advanced);
        assert(counted(peers[n - 1].data, replies[n - 1], entries, commit_index) <==> advanced(
            n - 1,
        ));
        if advanced(n - 1) {
            assert(all =~= before.insert(n - 1));
        } else {
            assert(all =~= before);
        }
    } else {
        assert(all =~= Set::<int>::empty());
    }
}

/// The smallest index that peers have reached is that of a peer that took the entries, and no peer
/// that took them has reached a smaller one.
pub proof fn law_least_matches_are_least<C>(
    peers: Seq<Peer<C>>,
    replies: Seq<PeerReply<AppendEntriesOutput>>,
    entries: int,
    least: int,
)
    requires
        is_least_match(peers, replies, entries, least),
    ensures
        exists|i: int|
            0 <= i < replies.len() && (#[trigger] replies[i]) is Replied
                && replies[i]->Replied_0.success && peers[i].data.connection is Some
                && peers[i].data.leader_state is Some
                && peers[i].data.leader_state->0.match_index + entries == least,
        forall|i: int|
            0 <= i < replies.len() && (#[trigger] replies[i]) is Replied
                && replies[i]->Replied_0.success && peers[i].data.connection is Some
                && peers[i].data.leader_state is Some ==> least
                <= peers[i].data.leader_state->0.match_index + entries,
{
    let i = choose|i: int|
        0 <= i < replies.len() && acknowledged(
            #[trigger] peers[i].data,
            replies[i],
        ) && peers[i].data.leader_state->0.match_index + entries == least;
    assert(replies[i] is Replied);
    assert forall|i: int|
        0 <= i < replies.len() && (#[trigger] replies[i]) is Replied
            && replies[i]->Replied_0.success && peers[i].data.connection is Some
            && peers[i].data.leader_state is Some implies least
        <= peers[i].data.leader_state->0.match_index + entries by {
        assert(acknowledged(peers[i].data, replies[i]));
    }
}

/// Sharing entries with peers that are followed by their own indices changes nothing of a node but
/// those indices: they grow by the number of entries where a peer took them.
pub proof fn law_sharing_only_advances_peers<C>(
    before: RaftImpl<C>,
    replies: Seq<PeerReply<AppendEntriesOutput>>,
    entries: int,
    after: RaftImpl<C>,
    i: int,
)
    requires
        0 <= entries,
        before.can_share(replies, entries),
        before.advanced(replies, entries, after),
        0 <= i < replies.len(),
    ensures
        after.inner.addr == before.inner.addr,
        after.inner.state == before.inner.state,
        after.inner.data_store == before.inner.data_store,
        after.inner.peer_connections.peers@.len() == before.inner.peer_connections.peers@.len(),
        ({
            let old_peer = before.inner.peer_connections.peers@[i];
            let new_peer = after.inner.peer_connections.peers@[i];
            &&& new_peer.addr == old_peer.addr
            &&& new_peer.data.connection == old_peer.data.connection
            &&& if old_peer.data.connection is Some && old_peer.data.leader_state is Some
                && replies[i] is Replied && replies[i]->Replied_0.success {
                &&& new_peer.data.leader_state is Some
                &&& new_peer.data.leader_state->0.match_index
                    == old_peer.data.leader_state->0.match_index + entries
                &&& new_peer.data.leader_state->0.next_index
                    == old_peer.data.leader_state->0.next_index + entries
            } else {
                new_peer.data.leader_state == old_peer.data.leader_state
            }
        }),
{
    assert(can_advance(before.inner.peer_connections.peers@[i].data, entries));
    assert(after.inner.peer_connections.peers@[i] == (Peer {
        addr: before.inner.peer_connections.peers@[i].addr,
        data: peer_advanced(before.inner.peer_connections.peers@[i].data, replies[i], entries),
    }));
}

/// Entries can be shared with peers that are followed by their own indices where there is one answer
/// for each and the indices of every peer that can be reached have room.
pub proof fn law_what_can_be_shared<C>(
    raft: RaftImpl<C>,
    replies: Seq<PeerReply<AppendEntriesOutput>>,
    entries: int,
)
    requires
        raft.inner.wf(),
        replies.len() == raft.inner.peer_connections.peers@.len(),
        forall|i: int|
            0 <= i < replies.len() && (
            #[trigger] raft.inner.peer_connections.peers@[i]).data.leader_state is Some ==> {
                let state = raft.inner.peer_connections.peers@[i].data.leader_state->0;
                &&& state.next_index > i64::MIN
                &&& state.next_index + entries <= i64::MAX
                &&& state.match_index + entries <= i64::MAX
            },
    ensures
        raft.can_share(replies, entries),
{
}

/// What a leader knows of its peers after a write is what their answers told it.
pub proof fn law_ended_writes_teach_about_peers<C>(
    before: Database<C>,
    replies: Seq<PeerReply<AppendEntriesOutput>>,
    after: Database<C>,
    i: int,
)
    requires
        before.state.raft_data.wf(),
        before.concluded(replies, after),
        0 <= i < replies.len(),
    ensures
        after.peer_connections.peers@.len() == before.peer_connections.peers@.len(),
        ({
            let old_peer = before.peer_connections.peers@[i];
            let new_peer = after.peer_connections.peers@[i];
            let length = before.state.raft_data.log@.len();
            &&& new_peer.addr == old_peer.addr
            &&& new_peer.data.connection == old_peer.data.connection
            &&& if old_peer.data.connection is Some && old_peer.data.leader_state is Some
                && replies[i] is Replied && replies[i]->Replied_0.success {
                &&& new_peer.data.leader_state is Some
                &&& new_peer.data.leader_state->0.next_index == length
                &&& new_peer.data.leader_state->0.match_index == length - 1
            } else {
                new_peer.data.leader_state == old_peer.data.leader_state
            }
        }),
{
    assert(after.peer_connections.peers@[i] == (Peer {
        addr: before.peer_connections.peers@[i].addr,
        data: peer_after(
            before.peer_connections.peers@[i].data,
            replies[i],
            before.state.raft_data.log@.len() - 1,
        ),
    }));
}

/// No two peers of a node have the same address, and there are fewer than can be counted in an `i64`. A
/// node is well formed where that holds and its log has a placeholder and can be indexed with an `i64`.
pub proof fn law_peers_have_different_addresses<C>(node: Database<C>)
    ensures
        node.wf() <==> {
            &&& 1 <= node.state.raft_data.log@.len() <= i64::MAX
            &&& node.peer_connections.peers@.len() < i64::MAX
            &&& node.peer_connections.peers@.map_values(|peer: Peer<C>| peer.addr@).no_duplicates()
        },
{
    let peers = node.peer_connections.peers@;
    let addrs = peers.map_values(|peer: Peer<C>| peer.addr@);
    if node.peer_connections.wf() {
        assert forall|i: int, j: int|
            0 <= i < addrs.len() && 0 <= j < addrs.len() && i != j implies addrs[i] != addrs[j] by {
            if i < j {
                assert(peers[i].addr@ != peers[j].addr@);
            } else {
                assert(peers[j].addr@ != peers[i].addr@);
            }
        }
    }
    if addrs.no_duplicates() {
        assert forall|i: int, j: int| 0 <= i < j < peers.len() implies (
        #[trigger] peers[i]).addr@ != (#[trigger] peers[j]).addr@ by {
            assert(addrs[i] != addrs[j]);
        }
    }
}

/// The beat of a leader is a success exactly if its log reaches at least to the commit index and the
/// peers that can be reached and took the entry, at least one, outnumber with the leader the other
/// nodes. The whole log is committed then, and otherwise what was. Nothing is applied.
pub proof fn law_beats_commit_all_or_nothing<C>(
    before: RaftVolatileData,
    peers: Seq<Peer<C>>,
    replies: Seq<PeerReply<AppendEntriesOutput>>,
    last_index: int,
    success: bool,
    after: RaftVolatileData,
)
    requires
        before.ends_beat(peers, replies, last_index, success, after),
    ensures
        ({
            let took = set_int_range(0, replies.len() as int).filter(
                |i: int|
                    peers[i].data.connection is Some && peers[i].data.leader_state is Some
                        && replies[i] is Replied && replies[i]->Replied_0.success,
            );
            &&& success <==> last_index >= before.commit_index && took.len() > 0 && 1 + took.len()
                > replies.len() - took.len()
            &&& success ==> after.commit_index == last_index
            &&& !success ==> after.commit_index == before.commit_index
            &&& after.commit_index >= before.commit_index
            &&& after.last_applied == before.last_applied
        }),
{
    law_commits_need_a_majority(peers, replies, last_index, before.commit_index as int);
}

/// Sharing entries with peers that are followed by their own indices is a success exactly if a peer
/// took them, and the peers that have reached the commit index with them outnumber, with the leader,
/// the other nodes. The commit index then becomes the smallest index that a peer has reached by taking
/// them, and otherwise stays. Nothing is applied.
pub proof fn law_sharing_commits_the_least<C>(
    before: RaftImpl<C>,
    replies: Seq<PeerReply<AppendEntriesOutput>>,
    entries: int,
    success: bool,
    after: RaftImpl<C>,
)
    requires
        before.shared(replies, entries, success, after),
    ensures
        ({
            let peers = before.inner.peer_connections.peers@;
            let old_volatile = before.inner.volatile_state.raft_data;
            let new_volatile = after.inner.volatile_state.raft_data;
            let took = |i: int|
                0 <= i < replies.len() && peers[i].data.connection is Some
                    && peers[i].data.leader_state is Some && replies[i] is Replied
                    && replies[i]->Replied_0.success;
            let reached = |i: int| peers[i].data.leader_state->0.match_index + entries;
            let up_to_date = set_int_range(0, replies.len() as int).filter(
                |i: int| took(i) && reached(i) >= old_volatile.commit_index,
            );
            &&& success <==> (exists|i: int| #[trigger] took(i)) && 1 + up_to_date.len()
                > replies.len() - up_to_date.len()
            &&& success ==> (exists|i: int|
                #[trigger] took(i) && new_volatile.commit_index == reached(i)) && (forall|i: int|
                #[trigger] took(i) ==> new_volatile.commit_index <= reached(i))
            &&& !success ==> new_volatile.commit_index == old_volatile.commit_index
            &&& new_volatile.last_applied == old_volatile.last_applied
        }),
{
    let peers = before.inner.peer_connections.peers@;
    let old_volatile = before.inner.volatile_state.raft_data;
    let new_volatile = after.inner.volatile_state.raft_data;
    let n = replies.len() as int;
    let took = |i: int|
        0 <= i < replies.len() && peers[i].data.connection is Some && peers[i].data.leader_state
            is Some && replies[i] is Replied && replies[i]->Replied_0.success;
    let reached = |i: int| peers[i].data.leader_state->0.match_index + entries;
    let up_to_date = set_int_range(0, n).filter(
        |i: int| took(i) && reached(i) >= old_volatile.commit_index,
    );
    law_each_advance_counts_once(peers, replies, entries, old_volatile.commit_index as int, n);
    assert(up_to_date =~= set_int_range(0, n).filter(
        |i: int|
            peers[i].data.connection is Some && peers[i].data.leader_state is Some
                && replies[i] is Replied && replies[i]->Replied_0.success
                && peers[i].data.leader_state->0.match_index + entries
                >= old_volatile.commit_index,
    ));
    assert forall|i: int| #[trigger] took(i) <==> 0 <= i < n && acknowledged(
        peers[i].data,
        replies[i],
    ) by {}
    if exists|i: int| 0 <= i < n && acknowledged(#[trigger] peers[i].data, replies[i]) {
        let i = choose|i: int| 0 <= i < n && acknowledged(#[trigger] peers[i].data, replies[i]);
        assert(took(i));
    }
    if exists|i: int| #[trigger] took(i) {
        let i = choose|i: int| #[trigger] took(i);
        assert(acknowledged(peers[i].data, replies[i]));
    }
    if success {
        let i = choose|i: int|
            0 <= i < n && acknowledged(#[trigger] peers[i].data, replies[i])
                && peers[i].data.leader_state->0.match_index + entries
                == new_volatile.commit_index;
        assert(took(i) && new_volatile.commit_index == reached(i));
        assert forall|i: int| #[trigger] took(i) implies new_volatile.commit_index <= reached(
            i,
        ) by {
            assert(acknowledged(peers[i].data, replies[i]));
        }
    }
}

} // verus!
