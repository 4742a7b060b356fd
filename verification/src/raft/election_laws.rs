//! What holds of terms, votes and elections, over one call and over the whole life of a node.

use vstd::prelude::*;
use vstd::set_lib::set_int_range;

use crate::messages::{
    AppendEntriesInput, AppendEntriesOutput, RequestVoteInput, RequestVoteOutput, Value,
};
use crate::raft::heartbeat::{HeartbeatAction, HEARTBEAT_INTERVAL, PAUSE_LIMIT, SHORTEST_PAUSE};
use crate::raft::laws::{law_each_vote_counts_once, voters};
use crate::raft::node::{at_least_as_up_to_date, Database};
use crate::raft::peer::{voted_yes, wins, Peer, PeerReply};
use crate::raft::state::{RaftNodeType, RaftStableData, RaftStableState};

verus! {

/// A log that ends with a later term is the more up to date one, however long the other is.
pub proof fn law_later_terms_are_more_up_to_date(
    term: int,
    index: int,
    other_term: int,
    other_index: int,
)
    requires
        term > other_term,
    ensures
        at_least_as_up_to_date(term, index, other_term, other_index),
        !at_least_as_up_to_date(other_term, other_index, term, index),
{
}

/// Among logs that end with the same term, the shorter one is not as up to date as the longer, and
/// the longer one is as up to date as the shorter.
pub proof fn law_longer_logs_are_more_up_to_date(term: int, index: int, other_index: int)
    requires
        index > other_index,
    ensures
        at_least_as_up_to_date(term, index, term, other_index),
        !at_least_as_up_to_date(term, other_index, term, index),
{
}

/// Two logs that are each as up to date as the other end with the same term at the same index.
pub proof fn law_up_to_date_is_antisymmetric(
    term: int,
    index: int,
    other_term: int,
    other_index: int,
)
    requires
        at_least_as_up_to_date(term, index, other_term, other_index),
        at_least_as_up_to_date(other_term, other_index, term, index),
    ensures
        term == other_term,
        index == other_index,
{
}

/// A vote goes only to a candidate whose term is not over, whose last entry is of a later term than
/// the voter's or of the same term and not at a smaller index, and who is the one that has the vote
/// where it was given before.
pub proof fn law_votes_have_their_conditions<C>(
    before: Database<C>,
    request: RequestVoteInput,
    output: RequestVoteOutput,
    after: Database<C>,
)
    requires
        before.answered_vote(request, output, after),
        output.vote_granted,
    ensures
        request.term >= before.state.raft_data.current_term,
        request.last_log_term >= before.state.raft_data.log@.last().term,
        request.last_log_term == before.state.raft_data.log@.last().term
            ==> request.last_log_index >= before.state.raft_data.log@.len() - 1,
        before.state.raft_data.voted_for is Some ==> before.state.raft_data.voted_for->0@
            == request.candidate_id@,
{
}

/// A node that has not voted gives its vote to every candidate of a term that is not over, if the
/// candidate's last entry is of a later term or of the same term at no smaller index.
pub proof fn law_a_free_vote_is_given<C>(
    before: Database<C>,
    request: RequestVoteInput,
    output: RequestVoteOutput,
    after: Database<C>,
)
    requires
        before.answered_vote(request, output, after),
        before.state.raft_data.voted_for is Some ==> before.state.raft_data.voted_for->0@
            == request.candidate_id@,
        request.term >= before.state.raft_data.current_term,
        request.last_log_term > before.state.raft_data.log@.last().term || (request.last_log_term
            == before.state.raft_data.log@.last().term && request.last_log_index + 1
            >= before.state.raft_data.log@.len()),
    ensures
        output.vote_granted,
{
}

/// With its vote a node takes over the candidate's term, follows it and knows it to be alive. The
/// log, the indices, the data and the peers stay.
pub proof fn law_voters_follow<C>(
    before: Database<C>,
    request: RequestVoteInput,
    output: RequestVoteOutput,
    after: Database<C>,
)
    requires
        before.answered_vote(request, output, after),
        output.vote_granted,
    ensures
        output.term == request.term,
        after.state.raft_data.current_term == request.term,
        after.state.raft_data.voted_for == Some(request.candidate_id),
        after.state.raft_data.node_type == RaftNodeType::Follower(true),
        after.state.raft_data.log == before.state.raft_data.log,
        after.volatile_state == before.volatile_state,
        after.data_store == before.data_store,
        after.peer_connections == before.peer_connections,
        after.addr == before.addr,
{
}

/// A node that refuses its vote answers with its own term and stays as it is.
pub proof fn law_refusals_change_nothing<C>(
    before: Database<C>,
    request: RequestVoteInput,
    output: RequestVoteOutput,
    after: Database<C>,
)
    requires
        before.answered_vote(request, output, after),
        !output.vote_granted,
    ensures
        output.term == before.state.raft_data.current_term,
        after == before,
{
}

/// Where two nodes would each give the other its vote, their logs end with the same term at the
/// same index.
pub proof fn law_mutual_votes_need_equal_ends<C, D>(
    first: Database<C>,
    second: Database<D>,
    to_first: RequestVoteInput,
    by_first: RequestVoteOutput,
    first_after: Database<C>,
    to_second: RequestVoteInput,
    by_second: RequestVoteOutput,
    second_after: Database<D>,
)
    requires
        to_first.last_log_term == second.state.raft_data.log@.last().term,
        to_first.last_log_index == second.state.raft_data.log@.len() - 1,
        to_second.last_log_term == first.state.raft_data.log@.last().term,
        to_second.last_log_index == first.state.raft_data.log@.len() - 1,
        first.answered_vote(to_first, by_first, first_after),
        second.answered_vote(to_second, by_second, second_after),
        by_first.vote_granted,
        by_second.vote_granted,
    ensures
        first.state.raft_data.log@.len() == second.state.raft_data.log@.len(),
        first.state.raft_data.log@.last().term == second.state.raft_data.log@.last().term,
{
}

/// A leader does not give its vote to a candidate whose last entry is older than what the leader has
/// just written.
pub proof fn law_writers_refuse_stale_candidates<C>(
    leader: Database<C>,
    values: Seq<Value>,
    message: AppendEntriesInput,
    written: Database<C>,
    request: RequestVoteInput,
    output: RequestVoteOutput,
    after: Database<C>,
)
    requires
        leader.proposed(values, message, written),
        values.len() > 0,
        written.answered_vote(request, output, after),
        request.last_log_term < leader.state.raft_data.current_term,
    ensures
        !output.vote_granted,
{
    let log = written.state.raft_data.log@;
    assert(log.last() == message.entries@[message.entries@.len() - 1]);
}

/// Nor does it after a beat.
pub proof fn law_beating_leaders_refuse_stale_candidates<C>(
    leader: RaftStableData,
    addr: Seq<char>,
    commit_index: int,
    action: HeartbeatAction,
    beaten: Database<C>,
    request: RequestVoteInput,
    output: RequestVoteOutput,
    after: Database<C>,
)
    requires
        leader.node_type == RaftNodeType::Leader,
        leader.beats_to(addr, commit_index, action, beaten.state.raft_data),
        beaten.answered_vote(request, output, after),
        request.last_log_term < leader.current_term,
    ensures
        !output.vote_granted,
{
    let log = beaten.state.raft_data.log@;
    assert(log.last() == action->ShareLog_0.entries@[0]);
}

/// A node that hears nothing asks for votes in a term that it has not been in, with the end of its
/// log, and votes for itself. Its log stays.
pub proof fn law_silent_nodes_stand_for_election(
    before: RaftStableData,
    addr: Seq<char>,
    commit_index: int,
    action: HeartbeatAction,
    after: RaftStableData,
)
    requires
        before.beats_to(addr, commit_index, action, after),
        before.node_type == RaftNodeType::Follower(false) || before.node_type
            == RaftNodeType::Candidate,
    ensures
        after.node_type == RaftNodeType::Candidate,
        after.current_term == before.current_term + 1,
        after.voted_for is Some,
        after.voted_for->0@ == addr,
        after.log == before.log,
        action is RequestVotes,
        action->RequestVotes_0.term == after.current_term,
        action->RequestVotes_0.candidate_id@ == addr,
        action->RequestVotes_0.last_log_index + 1 == before.log@.len(),
        action->RequestVotes_0.last_log_term == before.log@.last().term,
{
}

/// Only a node that hears nothing or is a candidate already asks for votes.
pub proof fn law_only_silent_nodes_stand_for_election(
    before: RaftStableData,
    addr: Seq<char>,
    commit_index: int,
    action: HeartbeatAction,
    after: RaftStableData,
)
    requires
        before.beats_to(addr, commit_index, action, after),
        action is RequestVotes || after.current_term != before.current_term || after.node_type
            == RaftNodeType::Candidate,
    ensures
        before.node_type == RaftNodeType::Follower(false) || before.node_type
            == RaftNodeType::Candidate,
{
}

/// A follower that was pinged does nothing in its next beat but wait for another ping.
pub proof fn law_pinged_followers_wait(
    before: RaftStableData,
    addr: Seq<char>,
    commit_index: int,
    action: HeartbeatAction,
    after: RaftStableData,
)
    requires
        before.beats_to(addr, commit_index, action, after),
        before.node_type == RaftNodeType::Follower(true),
    ensures
        action is Rest,
        after.node_type == RaftNodeType::Follower(false),
        after.current_term == before.current_term,
        after.voted_for == before.voted_for,
        after.log == before.log,
{
}

/// A node that is not connected yet waits five seconds and stays as it is.
pub proof fn law_starting_nodes_wait(
    before: RaftStableData,
    addr: Seq<char>,
    commit_index: int,
    action: HeartbeatAction,
    after: RaftStableData,
)
    requires
        before.beats_to(addr, commit_index, action, after),
        before.node_type == RaftNodeType::StartingUp,
    ensures
        action == HeartbeatAction::Wait(5000),
        after == before,
{
}

/// In a beat a leader adds one entry of its term that does nothing, and sends exactly that entry with
/// the index and the term of the entry in front of it and with what it has committed.
pub proof fn law_leaders_share_a_heartbeat(
    before: RaftStableData,
    addr: Seq<char>,
    commit_index: int,
    action: HeartbeatAction,
    after: RaftStableData,
)
    requires
        before.beats_to(addr, commit_index, action, after),
        before.node_type == RaftNodeType::Leader,
    ensures
        after.node_type == RaftNodeType::Leader,
        after.current_term == before.current_term,
        after.voted_for == before.voted_for,
        after.log@.len() == before.log@.len() + 1,
        after.log@.drop_last() == before.log@,
        after.log@.last().log_action == 2,
        after.log@.last().value is None,
        after.log@.last().term == before.current_term,
        action is ShareLog,
        action->ShareLog_0.entries@ == seq![after.log@.last()],
        action->ShareLog_0.term == before.current_term,
        action->ShareLog_0.leader_id@ == addr,
        action->ShareLog_0.prev_log_index + 1 == before.log@.len(),
        action->ShareLog_0.prev_log_term == before.log@.last().term,
        action->ShareLog_0.leader_commit == commit_index,
{
    assert(after.log@.drop_last() =~= before.log@);
}

/// A candidate gets the vote of every node that has the same log, has not voted for another and is
/// not in a later term.
pub proof fn law_candidates_can_be_elected<C>(
    candidate: RaftStableData,
    addr: Seq<char>,
    commit_index: int,
    request: RequestVoteInput,
    standing: RaftStableData,
    voter: Database<C>,
    output: RequestVoteOutput,
    after: Database<C>,
)
    requires
        candidate.beats_to(addr, commit_index, HeartbeatAction::RequestVotes(request), standing),
        voter.state.raft_data.log@ == candidate.log@,
        voter.state.raft_data.voted_for is None,
        voter.state.raft_data.current_term <= candidate.current_term + 1,
        voter.answered_vote(request, output, after),
    ensures
        output.vote_granted,
        after.state.raft_data.current_term == standing.current_term,
        after.state.raft_data.voted_for is Some,
        after.state.raft_data.voted_for->0@ == addr,
{
}

/// Followers and candidates wait, with their pause, between 550 and 650 milliseconds.
pub proof fn law_followers_wait_longer(pause: u64)
    requires
        SHORTEST_PAUSE <= pause < PAUSE_LIMIT,
    ensures
        550 <= HEARTBEAT_INTERVAL + pause < 650,
{
}

/// Ending an election, won or lost, leaves the term and the log as they were.
pub proof fn law_elections_keep_term_and_log(before: RaftStableData, won: bool)
    ensures
        before.after_election(won).current_term == before.current_term,
        before.after_election(won).log == before.log,
{
}

/// Who wins an election leads and keeps the vote. Who loses plays the same part as before and has no
/// vote any more.
pub proof fn law_elections_decide_who_leads(before: RaftStableData, won: bool)
    ensures
        won ==> before.after_election(won).node_type == RaftNodeType::Leader,
        won ==> before.after_election(won).voted_for == before.voted_for,
        !won ==> before.after_election(won).node_type == before.node_type,
        !won ==> before.after_election(won).voted_for is None,
{
}

/// A candidate that has lost stands in a later term with its next beat.
pub proof fn law_losers_stand_in_a_later_term(
    standing: RaftStableData,
    addr: Seq<char>,
    commit_index: int,
    action: HeartbeatAction,
    again: RaftStableData,
)
    requires
        standing.node_type == RaftNodeType::Candidate,
        standing.after_election(false).beats_to(addr, commit_index, action, again),
    ensures
        again.node_type == RaftNodeType::Candidate,
        again.current_term > standing.current_term,
        action is RequestVotes,
        action->RequestVotes_0.term > standing.current_term,
{
}

/// An election is won exactly if the candidate and the connected peers that answered with their
/// vote are more than half as many as there are peers.
pub proof fn law_elections_are_won_by_votes<C>(
    peers: Seq<Peer<C>>,
    replies: Seq<PeerReply<RequestVoteOutput>>,
)
    ensures
        wins(peers, replies) <==> 2 * (1 + set_int_range(0, replies.len() as int).filter(
            |i: int|
                peers[i].data.connection is Some && replies[i] is Replied
                    && replies[i]->Replied_0.vote_granted,
        ).len()) > replies.len(),
{
    let n = replies.len() as int;
    let granted = set_int_range(0, n).filter(
        |i: int|
            peers[i].data.connection is Some && replies[i] is Replied
                && replies[i]->Replied_0.vote_granted,
    );
    assert(granted =~= voters(peers, replies, n));
    law_each_vote_counts_once(peers, replies, n);
}

/// A candidate that no peer voted for wins only where it has at most one peer.
pub proof fn law_no_votes_no_win<C>(
    peers: Seq<Peer<C>>,
    replies: Seq<PeerReply<RequestVoteOutput>>,
)
    requires
        replies.len() >= 2,
        forall|i: int|
            0 <= i < replies.len() ==> (#[trigger] replies[i]) is Unreached
                || !replies[i]->Replied_0.vote_granted,
    ensures
        !wins(peers, replies),
{
    let n = replies.len() as int;
    law_each_vote_counts_once(peers, replies, n);
    assert forall|i: int| 0 <= i < n implies !voted_yes(peers[i].data, replies[i]) by {
        assert(replies[i] is Unreached || !replies[i]->Replied_0.vote_granted);
    }
    assert(voters(peers, replies, n) =~= Set::<int>::empty());
}

/// What can happen to a node.
pub enum Step {
    /// It answers a candidate.
    Vote(RequestVoteInput, RequestVoteOutput),
    /// It answers a leader.
    Append(AppendEntriesInput, Result<AppendEntriesOutput, String>),
    /// It starts to write values.
    Propose(Seq<Value>, AppendEntriesInput),
    /// The answers of the peers end a write.
    Conclude(Seq<PeerReply<AppendEntriesOutput>>),
    /// It makes a beat.
    Beat(HeartbeatAction),
    /// An election ends, won or not.
    EndElection(bool),
    /// The answers of the peers end the beat of a leader.
    EndBeat,
    /// It has connected to its peers.
    Join,
}

/// Whether a step leads from one state of a node to another.
pub open spec fn leads_to<C>(before: Database<C>, step: Step, after: Database<C>) -> bool {
    match step {
        Step::Vote(request, output) => before.answered_vote(request, output, after),
        Step::Append(request, result) => before.answered_append(request, result, after),
        Step::Propose(values, message) => before.proposed(values, message, after),
        Step::Conclude(replies) => before.concluded(replies, after),
        Step::Beat(action) => {
            &&& before.state.raft_data.beats_to(
                before.addr.text@,
                before.volatile_state.raft_data.commit_index as int,
                action,
                after.state.raft_data,
            )
            &&& after == (Database { state: after.state, ..before })
        },
        Step::EndElection(won) => after == (Database {
            state: RaftStableState { raft_data: before.state.raft_data.after_election(won) },
            ..before
        }),
        Step::EndBeat => after.state == before.state && after.addr == before.addr
            && after.data_store == before.data_store,
        Step::Join => after == (Database {
            state: RaftStableState {
                raft_data: RaftStableData {
                    node_type: RaftNodeType::Follower(false),
                    ..before.state.raft_data
                },
            },
            ..before
        }),
    }
}

/// Whether these are the states that a node goes through with these steps.
pub open spec fn is_life<C>(states: Seq<Database<C>>, steps: Seq<Step>) -> bool {
    &&& states.len() == steps.len() + 1
    &&& forall|i: int|
        0 <= i < steps.len() ==> leads_to(states[i], #[trigger] steps[i], states[i + 1])
}

/// The term of a node never goes down.
pub proof fn law_terms_never_go_down<C>(
    states: Seq<Database<C>>,
    steps: Seq<Step>,
    earlier: int,
    later: int,
)
    requires
        is_life(states, steps),
        0 <= earlier <= later < states.len(),
    ensures
        states[earlier].state.raft_data.current_term <= states[later].state.raft_data.current_term,
    decreases later - earlier,
{
    if earlier < later {
        law_terms_never_go_down(states, steps, earlier, later - 1);
        assert(leads_to(states[later - 1], steps[later - 1], states[later - 1 + 1]));
    }
}

/// A node never stands for election twice in the same term: it asks for votes in a later term each
/// time.
pub proof fn law_candidacies_are_in_different_terms<C>(
    states: Seq<Database<C>>,
    steps: Seq<Step>,
    earlier: int,
    later: int,
    first: RequestVoteInput,
    second: RequestVoteInput,
)
    requires
        is_life(states, steps),
        0 <= earlier < later < steps.len(),
        steps[earlier] == Step::Beat(HeartbeatAction::RequestVotes(first)),
        steps[later] == Step::Beat(HeartbeatAction::RequestVotes(second)),
    ensures
        first.term < second.term,
{
    assert(leads_to(states[earlier], steps[earlier], states[earlier + 1]));
    assert(leads_to(states[later], steps[later], states[later + 1]));
    law_terms_never_go_down(states, steps, earlier + 1, later);
}

/// A node that asks for votes does so in a later term than any in which it has given its vote.
pub proof fn law_candidacies_follow_votes<C>(
    states: Seq<Database<C>>,
    steps: Seq<Step>,
    earlier: int,
    later: int,
    request: RequestVoteInput,
    output: RequestVoteOutput,
    own: RequestVoteInput,
)
    requires
        is_life(states, steps),
        0 <= earlier < later < steps.len(),
        steps[earlier] == Step::Vote(request, output),
        output.vote_granted,
        steps[later] == Step::Beat(HeartbeatAction::RequestVotes(own)),
    ensures
        request.term < own.term,
{
    assert(leads_to(states[earlier], steps[earlier], states[earlier + 1]));
    assert(leads_to(states[later], steps[later], states[later + 1]));
    law_terms_never_go_down(states, steps, earlier + 1, later);
}

/// A log is only cut where a node answers a leader. In every other step it stays or grows at its end.
pub proof fn law_only_leaders_cut_logs<C>(before: Database<C>, step: Step, after: Database<C>)
    requires
        leads_to(before, step, after),
        !(step is Append),
    ensures
        before.state.raft_data.log@.is_prefix_of(after.state.raft_data.log@),
{
}

/// The address of a node never changes.
pub proof fn law_addresses_stay<C>(before: Database<C>, step: Step, after: Database<C>)
    requires
        leads_to(before, step, after),
    ensures
        after.addr == before.addr,
{
}

/// A beat can be made exactly while there is a later term to stand in, or room in the log of a leader.
/// Every other node can always make one.
pub proof fn law_beats_need_room(node: RaftStableData)
    requires
        1 <= node.log@.len() <= i64::MAX,
    ensures
        node.can_beat() <==> match node.node_type {
            RaftNodeType::StartingUp => true,
            RaftNodeType::Follower(pinged) => pinged || node.current_term < i64::MAX,
            RaftNodeType::Candidate => node.current_term < i64::MAX,
            RaftNodeType::Leader => node.log@.len() < i64::MAX,
        },
{
}

/// A log is well formed exactly if it holds its placeholder and can be indexed with an `i64`. It ends
/// at its last index with its last term.
pub proof fn law_logs_have_an_end(node: RaftStableData)
    ensures
        node.wf() <==> 1 <= node.log@.len() <= i64::MAX,
        node.wf() ==> node.log@[node.last_index()].term == node.last_term() && node.last_index() + 1
            == node.log@.len(),
{
}

} // verus!
