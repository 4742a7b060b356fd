//! What holds across the operations of one node and of several.

use vstd::prelude::*;
use vstd::set_lib::{lemma_int_range, set_int_range};

use crate::messages::{
    AppendEntriesInput, AppendEntriesOutput, LogAction, LogEntry, RequestVoteInput,
    RequestVoteOutput, Value,
};
use crate::raft::data_store::{all_apply, applies, can_update, caught_up, replay};
use crate::raft::error::StateMachineError;
use crate::raft::follower::{spliced, FollowerActions};
use crate::raft::heartbeat::HeartbeatAction;
use crate::raft::node::{at_least_as_up_to_date, Database};
use crate::raft::peer::{
    acknowledged, committed, count_acknowledged, count_votes, is_majority, voted_yes, wins, Peer,
    PeerReply,
};
use crate::raft::read_write::found;
use crate::raft::state::{RaftNodeType, RaftStableData, RaftStableState};

verus! {

/// Applying a part of the log and then the next part is applying both.
pub proof fn law_replay_splits(
    data: Map<Seq<char>, Seq<char>>,
    log: Seq<LogEntry>,
    from: int,
    middle: int,
    to: int,
)
    requires
        from <= middle <= to,
    ensures
        replay(replay(data, log, from, middle), log, middle, to) == replay(data, log, from, to),
    decreases to - middle,
{
    if middle < to {
        law_replay_splits(data, log, from, middle, to - 1);
    }
}

/// Only the entries that are applied matter.
proof fn lemma_replay_of_prefix(
    data: Map<Seq<char>, Seq<char>>,
    log: Seq<LogEntry>,
    other: Seq<LogEntry>,
    from: int,
    to: int,
)
    requires
        forall|i: int| from < i <= to ==> log[i] == other[i],
    ensures
        replay(data, log, from, to) == replay(data, other, from, to),
    decreases to - from,
{
    if from < to {
        lemma_replay_of_prefix(data, log, other, from, to - 1);
    }
}

/// Whether an entry stores something under a key.
pub open spec fn puts(entry: LogEntry, key: Seq<char>) -> bool {
    &&& entry.action() == Some(LogAction::Put)
    &&& entry.value matches Some(value)
    &&& value.key@ == key
}

/// The last entry that stores something under a key decides.
proof fn lemma_last_put_decides(
    data: Map<Seq<char>, Seq<char>>,
    log: Seq<LogEntry>,
    from: int,
    to: int,
    put: int,
    key: Seq<char>,
)
    requires
        from < put <= to,
        puts(log[put], key),
        forall|i: int| put < i <= to ==> !puts(#[trigger] log[i], key),
    ensures
        replay(data, log, from, to).contains_key(key),
        replay(data, log, from, to)[key] == log[put].value->0.value@,
    decreases to - from,
{
    if put < to {
        lemma_last_put_decides(data, log, from, to - 1, put, key);
        assert(!puts(log[to], key));
    }
}

/// Catching up keeps the data what the applied part of the log makes of an empty store, also
/// where the log has changed behind that part.
proof fn lemma_caught_up_from_empty(
    log: Seq<LogEntry>,
    new_log: Seq<LogEntry>,
    commit_index: int,
    from: int,
    applied: int,
    before: Map<Seq<char>, Seq<char>>,
    after: Map<Seq<char>, Seq<char>>,
)
    requires
        0 <= from,
        before == replay(Map::empty(), log, 0, from),
        all_apply(log, 0, from + 1),
        forall|i: int| 0 < i <= from ==> log[i] == new_log[i],
        caught_up(new_log, commit_index, from, applied, before, after),
    ensures
        after == replay(Map::empty(), new_log, 0, applied),
        all_apply(new_log, 0, applied + 1),
{
    assert forall|i: int| 0 < i < applied + 1 implies applies(#[trigger] new_log[i]) by {
        if i <= from {
            assert(applies(log[i]));
        }
    }
    lemma_replay_of_prefix(Map::empty(), log, new_log, 0, from);
    law_replay_splits(Map::empty(), new_log, 0, from, applied);
}

/// Whether an update from a leader keeps what a node has committed.
pub open spec fn keeps_committed<C>(node: Database<C>, request: AppendEntriesInput) -> bool {
    let committed = node.volatile_state.raft_data.commit_index + 1;
    &&& committed <= node.log_after(request).len()
    &&& node.log_after(request).take(committed) == node.state.raft_data.log@.take(committed)
}

/// A node stays sound when it answers a leader, provided that the leader does not take back what
/// the node has committed.
pub proof fn law_answering_a_leader_keeps_sound<C>(
    before: Database<C>,
    request: AppendEntriesInput,
    result: Result<AppendEntriesOutput, String>,
    after: Database<C>,
)
    requires
        before.sound(),
        before.answered_append(request, result, after),
        before.state.raft_data.accepts(request) ==> keeps_committed(before, request),
        after.wf(),
    ensures
        after.sound(),
{
    if before.state.raft_data.accepts(request) {
        let committed = before.volatile_state.raft_data.commit_index + 1;
        let log = before.state.raft_data.log@;
        let new_log = before.log_after(request);
        assert forall|i: int| 0 <= i < committed implies log[i] == new_log[i] by {
            assert(log.take(committed)[i] == new_log.take(committed)[i]);
        }
        lemma_caught_up_from_empty(
            log,
            new_log,
            before.commit_after(request),
            before.volatile_state.raft_data.last_applied as int,
            after.volatile_state.raft_data.last_applied as int,
            before.data_store@,
            after.data_store@,
        );
    }
}

/// What a node has committed only grows when it answers a leader, provided that the leader does not
/// take it back.
pub proof fn law_commits_grow<C>(
    before: Database<C>,
    request: AppendEntriesInput,
    result: Result<AppendEntriesOutput, String>,
    after: Database<C>,
)
    requires
        before.sound(),
        before.answered_append(request, result, after),
        before.state.raft_data.accepts(request) ==> keeps_committed(before, request),
    ensures
        after.volatile_state.raft_data.commit_index
            >= before.volatile_state.raft_data.commit_index,
        after.volatile_state.raft_data.last_applied
            >= before.volatile_state.raft_data.last_applied,
{
}

/// Whether the indices of a node are in order: nothing is applied that is not committed, and nothing
/// is committed that is not in the log.
pub open spec fn indices_in_order<C>(node: Database<C>) -> bool {
    0 <= node.volatile_state.raft_data.last_applied <= node.volatile_state.raft_data.commit_index
        < node.state.raft_data.log@.len()
}

/// Whether an entry takes a key out.
pub open spec fn deletes(entry: LogEntry) -> bool {
    entry.action() == Some(LogAction::Delete)
}

/// An update from a leader that follows what a node has committed keeps the indices in order and the
/// committed entries where they are. Both indices only grow, and on success they meet.
pub proof fn law_updates_keep_what_is_committed<C>(
    before: Database<C>,
    input: AppendEntriesInput,
    result: Result<AppendEntriesOutput, StateMachineError>,
    after: Database<C>,
)
    requires
        indices_in_order(before),
        before.volatile_state.raft_data.commit_index <= input.prev_log_index,
        input.prev_log_index < before.state.raft_data.log@.len(),
        before.made_update(input, result, after),
    ensures
        indices_in_order(after),
        after.volatile_state.raft_data.commit_index
            >= before.volatile_state.raft_data.commit_index,
        after.volatile_state.raft_data.last_applied
            >= before.volatile_state.raft_data.last_applied,
        after.state.raft_data.log@.take(before.volatile_state.raft_data.commit_index + 1)
            == before.state.raft_data.log@.take(before.volatile_state.raft_data.commit_index + 1),
        result matches Ok(output) ==> output.success
            && after.volatile_state.raft_data.last_applied
            == after.volatile_state.raft_data.commit_index,
{
    let kept = before.volatile_state.raft_data.commit_index + 1;
    assert(after.state.raft_data.log@.take(kept) =~= before.state.raft_data.log@.take(kept));
}

/// Such an update can be made wherever no entry takes a key out and the new log fits into an `i64`.
pub proof fn law_updates_without_deletes_can_be_made<C>(
    before: Database<C>,
    input: AppendEntriesInput,
)
    requires
        indices_in_order(before),
        before.state.raft_data.wf(),
        before.volatile_state.raft_data.commit_index <= input.prev_log_index,
        input.prev_log_index < before.state.raft_data.log@.len(),
        before.log_after(input).len() <= i64::MAX,
        forall|i: int|
            0 <= i < before.state.raft_data.log@.len() ==> !deletes(
                #[trigger] before.state.raft_data.log@[i],
            ),
        forall|i: int| 0 <= i < input.entries@.len() ==> !deletes(#[trigger] input.entries@[i]),
    ensures
        before.can_take(input),
{
    let log = before.state.raft_data.log@;
    let new_log = before.log_after(input);
    assert forall|i: int| 0 <= i < new_log.len() implies !deletes(#[trigger] new_log[i]) by {
        if i <= input.prev_log_index {
            assert(new_log[i] == log[i]);
        } else {
            assert(new_log[i] == input.entries@[i - input.prev_log_index - 1]);
        }
    }
    assert(can_update(
        new_log,
        before.volatile_state.raft_data.last_applied as int,
        before.commit_after(input),
    )) by {
        assert forall|i: int|
            before.volatile_state.raft_data.last_applied < i <= before.commit_after(input)
                && #[trigger] all_apply(
                new_log,
                before.volatile_state.raft_data.last_applied as int,
                i,
            ) implies 0 <= i < new_log.len() && new_log[i].action()
            != Some(LogAction::Delete) by {
            assert(!deletes(new_log[i]));
        }
    }
}

/// A node stays sound when it answers a candidate.
pub proof fn law_answering_a_candidate_keeps_sound<C>(
    before: Database<C>,
    request: RequestVoteInput,
    output: RequestVoteOutput,
    after: Database<C>,
)
    requires
        before.sound(),
        before.answered_vote(request, output, after),
    ensures
        after.sound(),
{
}

/// A leader stays sound while it writes, whatever its peers answer.
pub proof fn law_writing_keeps_sound<C>(
    before: Database<C>,
    values: Seq<Value>,
    message: AppendEntriesInput,
    between: Database<C>,
    replies: Seq<PeerReply<AppendEntriesOutput>>,
    after: Database<C>,
)
    requires
        before.sound(),
        before.proposed(values, message, between),
        between.concluded(replies, after),
    ensures
        between.sound(),
        after.sound(),
{
    let log = before.state.raft_data.log@;
    let new_log = between.state.raft_data.log@;
    lemma_longer_log_keeps_sound(before, between);
    if between.commits(replies) {
        lemma_caught_up_from_empty(
            log,
            new_log,
            between.state.raft_data.last_index(),
            between.volatile_state.raft_data.last_applied as int,
            after.volatile_state.raft_data.last_applied as int,
            between.data_store@,
            after.data_store@,
        );
    }
}

/// Entries at the end of the log do not matter for what is applied already.
proof fn lemma_longer_log_keeps_sound<C>(before: Database<C>, after: Database<C>)
    requires
        before.sound(),
        after.wf(),
        after.volatile_state == before.volatile_state,
        after.data_store == before.data_store,
        before.state.raft_data.log@.is_prefix_of(after.state.raft_data.log@),
    ensures
        after.sound(),
{
    let log = before.state.raft_data.log@;
    let new_log = after.state.raft_data.log@;
    let applied = before.volatile_state.raft_data.last_applied as int;
    assert forall|i: int| 0 <= i < log.len() implies log[i] == #[trigger] new_log[i] by {
        assert(new_log.subrange(0, log.len() as int)[i] == new_log[i]);
    }
    lemma_replay_of_prefix(Map::empty(), log, new_log, 0, applied);
    assert forall|i: int| 0 < i < applied + 1 implies applies(#[trigger] new_log[i]) by {
        assert(applies(log[i]));
    }
}

/// A node stays sound in a beat: it only adds to the log.
pub proof fn law_beating_keeps_sound<C>(
    before: Database<C>,
    action: HeartbeatAction,
    after: Database<C>,
)
    requires
        before.sound(),
        before.state.raft_data.beats_to(
            before.addr.text@,
            before.volatile_state.raft_data.commit_index as int,
            action,
            after.state.raft_data,
        ),
        after.state.raft_data.wf(),
        after == (Database { state: after.state, ..before }),
    ensures
        after.sound(),
{
    lemma_longer_log_keeps_sound(before, after);
}

/// A leader stays sound when the answers of its peers end a beat, whether its log becomes
/// committed or not.
pub proof fn law_ending_a_beat_keeps_sound<C>(before: Database<C>, after: Database<C>)
    requires
        before.sound(),
        after.peer_connections.wf(),
        after.addr == before.addr,
        after.state == before.state,
        after.data_store == before.data_store,
        after.volatile_state.raft_data.last_applied
            == before.volatile_state.raft_data.last_applied,
        after.volatile_state.raft_data.commit_index
            == before.volatile_state.raft_data.commit_index
            || after.volatile_state.raft_data.commit_index == before.state.raft_data.last_index(),
    ensures
        after.sound(),
{
}

/// A node stays sound when an election is over, whether it won or not.
pub proof fn law_ending_an_election_keeps_sound<C>(before: Database<C>, won: bool)
    requires
        before.sound(),
    ensures
        (Database {
            state: RaftStableState { raft_data: before.state.raft_data.after_election(won) },
            ..before
        }).sound(),
{
}

/// What a node reads under a key after a write that was answered with success is what was written
/// there: the last of the written values for that key.
pub proof fn law_reads_own_writes<C>(
    before: Database<C>,
    values: Seq<Value>,
    message: AppendEntriesInput,
    between: Database<C>,
    replies: Seq<PeerReply<AppendEntriesOutput>>,
    after: Database<C>,
    written: int,
)
    requires
        before.sound(),
        before.proposed(values, message, between),
        between.concluded(replies, after),
        between.commits(replies),
        after.is_current(),
        0 <= written < values.len(),
        forall|i: int| written < i < values.len() ==> (#[trigger] values[i]).key@
            != values[written].key@,
    ensures
        found(after.data_store@, seq![values[written].key@]) == seq![values[written].text()],
{
    let key = values[written].key@;
    let log = before.state.raft_data.log@;
    let new_log = between.state.raft_data.log@;
    let from = before.volatile_state.raft_data.last_applied as int;
    let to = between.state.raft_data.last_index();
    let put = log.len() + written;
    assert(new_log[put] == message.entries@[written]);
    assert forall|i: int| put < i <= to implies !puts(#[trigger] new_log[i], key) by {
        assert(new_log[i] == message.entries@[i - log.len()]);
        assert(values[i - log.len()].key@ != key);
    }
    lemma_last_put_decides(before.data_store@, new_log, from, to, put, key);
    let keys = seq![key];
    assert(keys.drop_last() =~= Seq::<Seq<char>>::empty());
    assert(found(after.data_store@, keys.drop_last()) =~= seq![]);
    assert(found(after.data_store@, keys) =~= seq![values[written].text()]);
}

/// A write that is answered with success changes no other key than those that it writes,
/// where the leader had applied its whole log before.
pub proof fn law_writes_nothing_else<C>(
    before: Database<C>,
    values: Seq<Value>,
    message: AppendEntriesInput,
    between: Database<C>,
    replies: Seq<PeerReply<AppendEntriesOutput>>,
    after: Database<C>,
    key: Seq<char>,
)
    requires
        before.sound(),
        before.volatile_state.raft_data.last_applied == before.state.raft_data.last_index(),
        before.proposed(values, message, between),
        between.concluded(replies, after),
        forall|i: int| 0 <= i < values.len() ==> (#[trigger] values[i]).key@ != key,
    ensures
        after.data_store@.contains_key(key) == before.data_store@.contains_key(key),
        after.data_store@.contains_key(key) ==> after.data_store@[key] == before.data_store@[key],
{
    if between.commits(replies) {
        let log = before.state.raft_data.log@;
        let new_log = between.state.raft_data.log@;
        assert forall|i: int| log.len() <= i < new_log.len() implies !puts(
            #[trigger] new_log[i],
            key,
        ) by {
            assert(new_log[i] == message.entries@[i - log.len()]);
            assert(values[i - log.len()].key@ != key);
        }
        lemma_others_stay(
            before.data_store@,
            new_log,
            before.volatile_state.raft_data.last_applied as int,
            after.volatile_state.raft_data.last_applied as int,
            key,
        );
    }
}

/// A key stays as it is while no applied entry stores something under it.
proof fn lemma_others_stay(
    data: Map<Seq<char>, Seq<char>>,
    log: Seq<LogEntry>,
    from: int,
    to: int,
    key: Seq<char>,
)
    requires
        forall|i: int| from < i <= to ==> !puts(#[trigger] log[i], key),
    ensures
        replay(data, log, from, to).contains_key(key) == data.contains_key(key),
        data.contains_key(key) ==> replay(data, log, from, to)[key] == data[key],
    decreases to - from,
{
    if from < to {
        lemma_others_stay(data, log, from, to - 1, key);
        assert(!puts(log[to], key));
    }
}

/// Two sound nodes that have applied the same entries hold the same data.
pub proof fn law_equal_logs_give_equal_data<C, D>(first: Database<C>, second: Database<D>)
    requires
        first.sound(),
        second.sound(),
        first.volatile_state.raft_data.last_applied
            == second.volatile_state.raft_data.last_applied,
        forall|i: int|
            0 < i <= first.volatile_state.raft_data.last_applied
                ==> first.state.raft_data.log@[i] == second.state.raft_data.log@[i],
    ensures
        first.data_store@ == second.data_store@,
{
    lemma_replay_of_prefix(
        Map::empty(),
        first.state.raft_data.log@,
        second.state.raft_data.log@,
        0,
        first.volatile_state.raft_data.last_applied as int,
    );
}

/// Two logs match: where they have entries of the same term at the same index, they are equal up to
/// there. They start with the same placeholder.
pub open spec fn logs_match(log: Seq<LogEntry>, other: Seq<LogEntry>) -> bool {
    &&& log.len() > 0
    &&& other.len() > 0
    &&& log[0] == other[0]
    &&& forall|i: int|
        0 <= i < log.len() && i < other.len() && (#[trigger] log[i]).term == other[i].term
            ==> log.take(i + 1) == other.take(i + 1)
}

/// The logs of two nodes that have just been set up match.
pub proof fn law_fresh_logs_match(log: Seq<LogEntry>, other: Seq<LogEntry>)
    requires
        log.len() == 1,
        log[0].action() == Some(LogAction::Noop),
        log[0].value is None,
        log[0].term == -1,
        other.len() == 1,
        other[0].action() == Some(LogAction::Noop),
        other[0].value is None,
        other[0].term == -1,
    ensures
        logs_match(log, other),
{
    assert(log =~= other);
}

/// Logs match whichever of them comes first, and a log matches itself.
pub proof fn law_matching_is_mutual(log: Seq<LogEntry>, other: Seq<LogEntry>)
    requires
        logs_match(log, other),
    ensures
        logs_match(other, log),
        logs_match(log, log),
{
    assert forall|i: int|
        0 <= i < other.len() && i < log.len() && (#[trigger] other[i]).term
            == log[i].term implies other.take(i + 1) == log.take(i + 1) by {
        assert(log[i].term == other[i].term);
    }
}

/// A leader that adds entries of its term keeps its log matching with another one, as long as the
/// other has no entries of that term there: only the leader makes such entries.
pub proof fn law_adding_keeps_logs_matching(
    log: Seq<LogEntry>,
    entries: Seq<LogEntry>,
    term: i64,
    other: Seq<LogEntry>,
)
    requires
        logs_match(log, other),
        forall|i: int| 0 <= i < entries.len() ==> (#[trigger] entries[i]).term == term,
        forall|i: int| log.len() <= i < other.len() ==> (#[trigger] other[i]).term != term,
    ensures
        logs_match(log + entries, other),
{
    let longer = log + entries;
    assert forall|i: int|
        0 <= i < longer.len() && i < other.len() && (#[trigger] longer[i]).term
            == other[i].term implies longer.take(i + 1) == other.take(i + 1) by {
        if i < log.len() {
            assert(log[i].term == other[i].term);
            assert(longer.take(i + 1) =~= log.take(i + 1));
        } else {
            assert(longer[i] == entries[i - log.len()]);
            assert(other[i].term != term);
        }
    }
}

/// A follower whose log matches that of a leader has the leader's log once it has accepted what
/// the leader writes.
pub proof fn law_accepted_write_copies_the_log<C, D>(
    leader: Database<C>,
    values: Seq<Value>,
    message: AppendEntriesInput,
    leader_after: Database<C>,
    follower: Database<D>,
    result: Result<AppendEntriesOutput, String>,
    follower_after: Database<D>,
)
    requires
        leader.wf(),
        leader.proposed(values, message, leader_after),
        logs_match(leader.state.raft_data.log@, follower.state.raft_data.log@),
        follower.state.raft_data.accepts(message),
        follower.answered_append(message, result, follower_after),
    ensures
        follower_after.state.raft_data.log@ == leader_after.state.raft_data.log@,
{
    lemma_splice_copies(leader.state.raft_data, follower.state.raft_data, message);
}

/// A follower whose log matches that of a leader has the leader's log once it has accepted a
/// heartbeat.
pub proof fn law_accepted_heartbeat_copies_the_log<D>(
    leader: RaftStableData,
    addr: Seq<char>,
    commit_index: int,
    message: AppendEntriesInput,
    leader_after: RaftStableData,
    follower: Database<D>,
    result: Result<AppendEntriesOutput, String>,
    follower_after: Database<D>,
)
    requires
        leader.wf(),
        leader.node_type == RaftNodeType::Leader,
        leader.beats_to(addr, commit_index, HeartbeatAction::ShareLog(message), leader_after),
        logs_match(leader.log@, follower.state.raft_data.log@),
        follower.state.raft_data.accepts(message),
        follower.answered_append(message, result, follower_after),
    ensures
        follower_after.state.raft_data.log@ == leader_after.log@,
{
    lemma_splice_copies(leader, follower.state.raft_data, message);
}

/// Entries that follow a leader's last entry make a matching log the leader's.
proof fn lemma_splice_copies(
    leader: RaftStableData,
    follower: RaftStableData,
    message: AppendEntriesInput,
)
    requires
        leader.wf(),
        message.prev_log_index == leader.last_index(),
        message.prev_log_term == leader.last_term(),
        logs_match(leader.log@, follower.log@),
        follower.prev_matches(message),
    ensures
        spliced(
            follower.log@,
            message.prev_log_index as int,
            message.entries@,
        ) == leader.log@ + message.entries@,
{
    let prev = message.prev_log_index as int;
    assert(leader.log@.take(prev + 1) =~= leader.log@);
    assert(leader.log@[prev].term == message.prev_log_term);
    assert(leader.log@[prev].term == follower.log@[prev].term);
}

/// A follower that has caught up with its leader, entry for entry and in what is committed,
/// holds the data of the leader.
pub proof fn law_replicas_hold_the_same_data<C, D>(leader: Database<C>, follower: Database<D>)
    requires
        leader.sound(),
        follower.sound(),
        leader.is_current(),
        follower.is_current(),
        follower.state.raft_data.log@ == leader.state.raft_data.log@,
        follower.volatile_state.raft_data.commit_index
            == leader.volatile_state.raft_data.commit_index,
    ensures
        follower.data_store@ == leader.data_store@,
{
    law_equal_logs_give_equal_data(leader, follower);
}

/// What a leader writes with success can be read from every follower that accepted the write, once
/// it has answered the next heartbeat: the follower then holds the data of the leader.
pub proof fn law_followers_serve_what_was_written<C, D>(
    leader: Database<C>,
    values: Seq<Value>,
    message: AppendEntriesInput,
    proposing: Database<C>,
    replies: Seq<PeerReply<AppendEntriesOutput>>,
    written: Database<C>,
    beat: AppendEntriesInput,
    beating: RaftStableData,
    follower: Database<D>,
    first_result: Result<AppendEntriesOutput, String>,
    following: Database<D>,
    second_result: Result<AppendEntriesOutput, String>,
    replica: Database<D>,
)
    requires
        leader.sound(),
        leader.state.raft_data.node_type == RaftNodeType::Leader,
        leader.proposed(values, message, proposing),
        proposing.concluded(replies, written),
        proposing.commits(replies),
        written.is_current(),
        written.state.raft_data.beats_to(
            written.addr.text@,
            written.volatile_state.raft_data.commit_index as int,
            HeartbeatAction::ShareLog(beat),
            beating,
        ),
        follower.sound(),
        logs_match(leader.state.raft_data.log@, follower.state.raft_data.log@),
        follower.volatile_state.raft_data.commit_index < leader.state.raft_data.log@.len(),
        follower.state.raft_data.accepts(message),
        follower.answered_append(message, first_result, following),
        following.wf(),
        following.answered_append(beat, second_result, replica),
        replica.wf(),
    ensures
        second_result is Ok,
        replica.data_store@ == written.data_store@,
        forall|i: int|
            0 <= i < values.len() && (forall|j: int|
                i < j < values.len() ==> (#[trigger] values[j]).key@ != values[i].key@) ==> found(
                replica.data_store@,
                seq![(#[trigger] values[i]).key@],
            ) == seq![values[i].text()],
{
    let log = leader.state.raft_data.log@;
    let new_log = written.state.raft_data.log@;
    let commit = written.volatile_state.raft_data.commit_index as int;
    lemma_splice_copies(leader.state.raft_data, follower.state.raft_data, message);
    law_writing_keeps_sound(leader, values, message, proposing, replies, written);

    let followed = follower.state.raft_data.log@;
    let kept = follower.volatile_state.raft_data.commit_index + 1;
    assert(following.state.raft_data.log@ == new_log);
    assert(followed.take(message.prev_log_index + 1) == log) by {
        assert(log.take(message.prev_log_index + 1) =~= log);
        assert(log[message.prev_log_index as int].term
            == followed[message.prev_log_index as int].term);
    }
    assert(follower.log_after(message).take(kept) =~= followed.take(kept)) by {
        assert forall|i: int| 0 <= i < kept implies follower.log_after(message)[i]
            == followed[i] by {
            assert(log[i] == followed.take(message.prev_log_index + 1)[i]);
        }
    }
    law_answering_a_leader_keeps_sound(follower, message, first_result, following);

    assert(following.state.raft_data.accepts(beat));
    let kept = following.volatile_state.raft_data.commit_index + 1;
    assert(following.log_after(beat) =~= new_log + beat.entries@);
    assert(following.log_after(beat).take(kept) =~= new_log.take(kept));
    law_answering_a_leader_keeps_sound(following, beat, second_result, replica);

    assert(replica.volatile_state.raft_data.commit_index == commit);
    if !replica.is_current() {
        let failed = replica.volatile_state.raft_data.last_applied + 1;
        assert(replica.state.raft_data.log@[failed] == new_log[failed]);
        assert(applies(new_log[failed]));
    }
    law_equal_logs_give_equal_data(written, replica);
    assert forall|i: int|
        0 <= i < values.len() && (forall|j: int|
            i < j < values.len() ==> (#[trigger] values[j]).key@ != values[i].key@) implies found(
        replica.data_store@,
        seq![(#[trigger] values[i]).key@],
    ) == seq![values[i].text()] by {
        law_reads_own_writes(leader, values, message, proposing, replies, written, i);
    }
}

/// A node that gave its vote refuses every other candidate.
pub proof fn law_one_vote<C>(
    before: Database<C>,
    request: RequestVoteInput,
    output: RequestVoteOutput,
    after: Database<C>,
    other: RequestVoteInput,
)
    requires
        before.answered_vote(request, output, after),
        output.vote_granted,
        other.candidate_id@ != request.candidate_id@,
    ensures
        !after.state.raft_data.grants_vote(other),
{
}

/// A node that has voted keeps its vote where it is when it answers a candidate.
pub proof fn law_voting_keeps_the_vote<C>(
    before: Database<C>,
    request: RequestVoteInput,
    output: RequestVoteOutput,
    after: Database<C>,
)
    requires
        before.answered_vote(request, output, after),
        before.state.raft_data.voted_for is Some,
    ensures
        after.state.raft_data.voted_for is Some,
        after.state.raft_data.voted_for->0@ == before.state.raft_data.voted_for->0@,
{
}

/// A node keeps its vote where it is when it answers a leader.
pub proof fn law_appending_keeps_the_vote<C>(
    before: Database<C>,
    request: AppendEntriesInput,
    result: Result<AppendEntriesOutput, String>,
    after: Database<C>,
)
    requires
        before.answered_append(request, result, after),
    ensures
        after.state.raft_data.voted_for == before.state.raft_data.voted_for,
{
}

/// A node keeps its vote where it is in a beat that starts no new term.
pub proof fn law_beating_keeps_the_vote(
    before: RaftStableData,
    addr: Seq<char>,
    commit_index: int,
    action: HeartbeatAction,
    after: RaftStableData,
)
    requires
        before.beats_to(addr, commit_index, action, after),
        after.current_term == before.current_term,
    ensures
        after.voted_for == before.voted_for,
{
}

/// A node that wins an election keeps the vote that it gave itself, so that it does not vote
/// for another in that term.
pub proof fn law_winners_keep_their_vote(before: RaftStableData, other: RequestVoteInput)
    requires
        before.voted_for matches Some(voted) && voted@ != other.candidate_id@,
    ensures
        before.after_election(true).node_type == RaftNodeType::Leader,
        !before.after_election(true).grants_vote(other),
{
}

/// A candidate with the vote of a node has a log that is at least as up to date as the node's.
pub proof fn law_votes_go_to_the_up_to_date<C>(
    before: Database<C>,
    request: RequestVoteInput,
    output: RequestVoteOutput,
    after: Database<C>,
)
    requires
        before.answered_vote(request, output, after),
        output.vote_granted,
    ensures
        at_least_as_up_to_date(
            request.last_log_term as int,
            request.last_log_index as int,
            after.state.raft_data.last_term(),
            after.state.raft_data.last_index(),
        ),
{
}

/// The term of a node does not go down when it answers a candidate.
pub proof fn law_voting_keeps_the_term<C>(
    before: Database<C>,
    request: RequestVoteInput,
    output: RequestVoteOutput,
    after: Database<C>,
)
    requires
        before.answered_vote(request, output, after),
    ensures
        after.state.raft_data.current_term >= before.state.raft_data.current_term,
{
}

/// The term of a node does not change when it answers a leader.
pub proof fn law_appending_keeps_the_term<C>(
    before: Database<C>,
    request: AppendEntriesInput,
    result: Result<AppendEntriesOutput, String>,
    after: Database<C>,
)
    requires
        before.answered_append(request, result, after),
    ensures
        after.state.raft_data.current_term == before.state.raft_data.current_term,
{
}

/// The term of a node does not go down in a beat.
pub proof fn law_beating_keeps_the_term(
    before: RaftStableData,
    addr: Seq<char>,
    commit_index: int,
    action: HeartbeatAction,
    after: RaftStableData,
)
    requires
        before.beats_to(addr, commit_index, action, after),
    ensures
        after.current_term >= before.current_term,
{
}

/// A follower that accepts entries stays a follower in its next beat; if nothing comes until the
/// beat behind that, it becomes a candidate of the next term.
pub proof fn law_silence_starts_an_election<C>(
    before: Database<C>,
    request: AppendEntriesInput,
    result: Result<AppendEntriesOutput, String>,
    pinged: Database<C>,
    addr: Seq<char>,
    action: HeartbeatAction,
    waiting: RaftStableData,
    next_action: HeartbeatAction,
    silent: RaftStableData,
)
    requires
        before.answered_append(request, result, pinged),
        before.state.raft_data.accepts(request),
        pinged.state.raft_data.beats_to(
            addr,
            pinged.volatile_state.raft_data.commit_index as int,
            action,
            waiting,
        ),
        waiting.beats_to(
            addr,
            pinged.volatile_state.raft_data.commit_index as int,
            next_action,
            silent,
        ),
    ensures
        action is Rest,
        waiting.node_type == RaftNodeType::Follower(false),
        waiting.current_term == before.state.raft_data.current_term,
        next_action is RequestVotes,
        silent.node_type == RaftNodeType::Candidate,
        silent.current_term == before.state.raft_data.current_term + 1,
{
}

/// Of two logs at least one is at least as up to date as the other.
pub proof fn law_up_to_date_is_total(term: int, index: int, other_term: int, other_index: int)
    ensures
        at_least_as_up_to_date(term, index, other_term, other_index) || at_least_as_up_to_date(
            other_term,
            other_index,
            term,
            index,
        ),
{
}

/// Being up to date carries over: a log that is as up to date as a second is so compared with
/// whatever the second is.
pub proof fn law_up_to_date_is_transitive(
    term: int,
    index: int,
    second_term: int,
    second_index: int,
    third_term: int,
    third_index: int,
)
    requires
        at_least_as_up_to_date(term, index, second_term, second_index),
        at_least_as_up_to_date(second_term, second_index, third_term, third_index),
    ensures
        at_least_as_up_to_date(term, index, third_term, third_index),
{
}

/// Two sets of nodes that are together larger than the cluster share a node.
proof fn lemma_share_a_node<N>(cluster: Set<N>, first: Set<N>, second: Set<N>)
    requires
        cluster.finite(),
        first.subset_of(cluster),
        second.subset_of(cluster),
        first.len() + second.len() > cluster.len(),
    ensures
        exists|node: N| first.contains(node) && second.contains(node),
{
    if forall|node: N| !(first.contains(node) && second.contains(node)) {
        vstd::set_lib::lemma_len_subset(first, cluster);
        vstd::set_lib::lemma_len_subset(second, cluster);
        vstd::set_lib::lemma_set_disjoint_lens(first, second);
        vstd::set_lib::lemma_len_subset(first + second, cluster);
    }
}

/// Any two sets of nodes that suffice to commit share a node.
pub proof fn law_commits_overlap<N>(cluster: Set<N>, first: Set<N>, second: Set<N>)
    requires
        cluster.finite(),
        first.subset_of(cluster),
        second.subset_of(cluster),
        is_majority(first.len() as int, cluster.len() - 1),
        is_majority(second.len() as int, cluster.len() - 1),
    ensures
        exists|node: N| first.contains(node) && second.contains(node),
{
    lemma_share_a_node(cluster, first, second);
}

/// The nodes that suffice to commit and the nodes that suffice to win an election share a node.
/// So a leader has the vote of a node that holds what was committed before.
pub proof fn law_elections_see_commits<N>(cluster: Set<N>, holders: Set<N>, voters: Set<N>)
    requires
        cluster.finite(),
        cluster.len() > 0,
        holders.subset_of(cluster),
        voters.subset_of(cluster),
        is_majority(holders.len() as int, cluster.len() - 1),
        voters.len() > (cluster.len() - 1) / 2,
    ensures
        exists|node: N| holders.contains(node) && voters.contains(node),
{
    lemma_share_a_node(cluster, holders, voters);
}

/// In a cluster with an odd number of nodes, any two sets of nodes that suffice to win an election
/// share a node.
pub proof fn law_elections_overlap<N>(cluster: Set<N>, first: Set<N>, second: Set<N>)
    requires
        cluster.finite(),
        cluster.len() % 2 == 1,
        first.subset_of(cluster),
        second.subset_of(cluster),
        first.len() > (cluster.len() - 1) / 2,
        second.len() > (cluster.len() - 1) / 2,
    ensures
        exists|node: N| first.contains(node) && second.contains(node),
{
    lemma_share_a_node(cluster, first, second);
}

/// The peers that voted for a candidate.
pub open spec fn voters<C>(
    peers: Seq<Peer<C>>,
    replies: Seq<PeerReply<RequestVoteOutput>>,
    n: int,
) -> Set<int> {
    set_int_range(0, n).filter(|i: int| voted_yes(peers[i].data, replies[i]))
}

/// The votes that are counted are those of so many different peers.
pub proof fn law_each_vote_counts_once<C>(
    peers: Seq<Peer<C>>,
    replies: Seq<PeerReply<RequestVoteOutput>>,
    n: int,
)
    requires
        0 <= n,
    ensures
        voters(peers, replies, n).finite(),
        voters(peers, replies, n).len() == count_votes(peers, replies, n),
    decreases n,
{
    lemma_int_range(0, n);
    if n > 0 {
        law_each_vote_counts_once(peers, replies, n - 1);
        let before = voters(peers, replies, n - 1);
        if voted_yes(peers[n - 1].data, replies[n - 1]) {
            assert(voters(peers, replies, n) =~= before.insert(n - 1));
        } else {
            assert(voters(peers, replies, n) =~= before);
        }
    } else {
        assert(voters(peers, replies, n) =~= Set::<int>::empty());
    }
}

/// The peers that acknowledged entries.
pub open spec fn holders<C>(
    peers: Seq<Peer<C>>,
    replies: Seq<PeerReply<AppendEntriesOutput>>,
    n: int,
) -> Set<int> {
    set_int_range(0, n).filter(|i: int| acknowledged(peers[i].data, replies[i]))
}

/// The acknowledgements that are counted are those of so many different peers.
pub proof fn law_each_acknowledgement_counts_once<C>(
    peers: Seq<Peer<C>>,
    replies: Seq<PeerReply<AppendEntriesOutput>>,
    n: int,
)
    requires
        0 <= n,
    ensures
        holders(peers, replies, n).finite(),
        holders(peers, replies, n).len() == count_acknowledged(peers, replies, n),
    decreases n,
{
    lemma_int_range(0, n);
    if n > 0 {
        law_each_acknowledgement_counts_once(peers, replies, n - 1);
        let before = holders(peers, replies, n - 1);
        if acknowledged(peers[n - 1].data, replies[n - 1]) {
            assert(holders(peers, replies, n) =~= before.insert(n - 1));
        } else {
            assert(holders(peers, replies, n) =~= before);
        }
    } else {
        assert(holders(peers, replies, n) =~= Set::<int>::empty());
    }
}

/// What is committed is held by a majority of the cluster: by the leader and by the peers that
/// acknowledged it.
pub proof fn law_commits_have_a_majority<C>(
    peers: Seq<Peer<C>>,
    replies: Seq<PeerReply<AppendEntriesOutput>>,
    last_index: int,
    commit_index: int,
)
    requires
        committed(peers, replies, last_index, commit_index),
    ensures
        is_majority(
            1 + holders(peers, replies, replies.len() as int).len() as int,
            replies.len() as int,
        ),
{
    law_each_acknowledgement_counts_once(peers, replies, replies.len() as int);
}

/// Who wins an election has the votes of more than half as many nodes as there are peers: its own and
/// those of the peers that voted for it.
pub proof fn law_winners_have_voters<C>(
    peers: Seq<Peer<C>>,
    replies: Seq<PeerReply<RequestVoteOutput>>,
)
    requires
        wins(peers, replies),
    ensures
        1 + voters(peers, replies, replies.len() as int).len() > replies.len() as int / 2,
{
    law_each_vote_counts_once(peers, replies, replies.len() as int);
}

/// In a cluster with an odd number of nodes, at most one candidate gets enough votes where each
/// node votes for one.
pub proof fn law_one_leader<N>(cluster: Set<N>, vote: spec_fn(N) -> N, first: N, second: N)
    requires
        cluster.finite(),
        cluster.len() % 2 == 1,
        cluster.filter(|node: N| vote(node) == first).len() > (cluster.len() - 1) / 2,
        cluster.filter(|node: N| vote(node) == second).len() > (cluster.len() - 1) / 2,
    ensures
        first == second,
{
    let for_first = cluster.filter(|node: N| vote(node) == first);
    let for_second = cluster.filter(|node: N| vote(node) == second);
    law_elections_overlap(cluster, for_first, for_second);
}

/// A read gives exactly the keys that exist among those that were asked for, each with its value.
pub proof fn law_reads_what_exists(
    data: Map<Seq<char>, Seq<char>>,
    keys: Seq<Seq<char>>,
    key: Seq<char>,
    value: Seq<char>,
)
    ensures
        found(data, keys).contains((key, value)) <==> keys.contains(key) && data.contains_key(key)
            && data[key] == value,
    decreases keys.len(),
{
    if keys.len() > 0 {
        law_reads_what_exists(data, keys.drop_last(), key, value);
        let before = found(data, keys.drop_last());
        let last = keys.last();
        assert(keys.contains(key) <==> keys.drop_last().contains(key) || key == last) by {
            assert(keys =~= keys.drop_last().push(last));
            if keys.drop_last().contains(key) {
                let i = choose|i: int| 0 <= i < keys.len() - 1 && keys.drop_last()[i] == key;
                assert(keys[i] == key);
            }
            if key == last {
                assert(keys[keys.len() - 1] == key);
            }
        }
        if data.contains_key(last) {
            let pair = (last, data[last]);
            assert(before.push(pair).contains((key, value)) <==> before.contains((key, value))
                || pair == (key, value)) by {
                if before.contains((key, value)) {
                    let i = choose|i: int| 0 <= i < before.len() && before[i] == (key, value);
                    assert(before.push(pair)[i] == (key, value));
                }
                if pair == (key, value) {
                    assert(before.push(pair)[before.len() as int] == (key, value));
                }
            }
        }
    }
}

} // verus!
