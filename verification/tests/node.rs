use risdb::messages::{AppendEntriesInput, LogEntry, PingInput, RequestVoteInput};
use risdb::raft::heartbeat::{HeartbeatAction, HEARTBEAT_INTERVAL, STARTING_UP_PAUSE};
use risdb::raft::node::{candidate_more_up_to_date, Database, NodeAddr, RaftImpl};
use risdb::raft::state::RaftNodeType;

fn follower() -> RaftImpl<()> {
    let addr = NodeAddr { text: "[::1]:5000".to_owned(), port: 5000 };
    let mut raft: RaftImpl<()> = RaftImpl::new(Database::new(addr));
    raft.inner.state.raft_data.node_type = RaftNodeType::Follower(false);
    raft.inner.state.raft_data.current_term = 3;
    raft.inner.state.raft_data.log.push(LogEntry::noop(1));
    raft.inner.state.raft_data.log.push(LogEntry::noop(2));
    raft
}

fn vote(term: i64, candidate: &str, index: i64, last_term: i64) -> RequestVoteInput {
    RequestVoteInput {
        term,
        candidate_id: candidate.to_owned(),
        last_log_index: index,
        last_log_term: last_term,
    }
}

fn append(term: i64, prev: i64, prev_term: i64, entries: Vec<LogEntry>) -> AppendEntriesInput {
    AppendEntriesInput {
        leader_id: "[::1]:5001".to_owned(),
        term,
        entries,
        prev_log_index: prev,
        prev_log_term: prev_term,
        leader_commit: 0,
    }
}

fn beat(raft: &mut RaftImpl<()>) -> HeartbeatAction {
    let inner = &mut raft.inner;
    RaftImpl::heartbeat(
        &inner.addr.text,
        &inner.peer_connections,
        &mut inner.state.raft_data,
        &inner.volatile_state.raft_data,
    )
}

#[test]
fn new_nodes_start_with_a_placeholder() {
    let addr = NodeAddr { text: "[::1]:5000".to_owned(), port: 5000 };
    let node: Database<()> = Database::new(addr);
    assert_eq!(node.state.raft_data.node_type, RaftNodeType::StartingUp);
    assert_eq!(node.state.raft_data.current_term, 0);
    assert_eq!(node.state.raft_data.voted_for, None);
    assert_eq!(node.state.raft_data.log.len(), 1);
    assert_eq!(node.state.raft_data.log[0].log_action, 2);
    assert_eq!(node.state.raft_data.log[0].term, -1);
    assert_eq!(node.volatile_state.raft_data.commit_index, 0);
    assert_eq!(node.volatile_state.raft_data.last_applied, 0);
    assert_eq!(node.data_store.data.len(), 0);
}

#[test]
fn later_term_or_longer_log_is_more_up_to_date() {
    let raft = follower();
    let data = &raft.inner.state.raft_data;
    assert!(!candidate_more_up_to_date(data, &vote(3, "a", 9, 1)));
    assert!(candidate_more_up_to_date(data, &vote(3, "a", 0, 3)));
    assert!(!candidate_more_up_to_date(data, &vote(3, "a", 1, 2)));
    assert!(candidate_more_up_to_date(data, &vote(3, "a", 2, 2)));
    assert!(candidate_more_up_to_date(data, &vote(3, "a", 3, 2)));
}

#[test]
fn votes_on_an_old_term_are_refused() {
    let mut raft = follower();
    let output = raft.request_vote(vote(2, "a", 9, 9));
    assert!(!output.vote_granted);
    assert_eq!(output.term, 3);
    assert_eq!(raft.inner.state.raft_data.voted_for, None);
    assert_eq!(raft.inner.state.raft_data.node_type, RaftNodeType::Follower(false));
}

#[test]
fn votes_for_an_out_of_date_log_are_refused() {
    let mut raft = follower();
    let output = raft.request_vote(vote(4, "a", 1, 2));
    assert!(!output.vote_granted);
    assert_eq!(output.term, 3);
    assert_eq!(raft.inner.state.raft_data.current_term, 3);
}

#[test]
fn a_vote_is_given_once() {
    let mut raft = follower();
    let output = raft.request_vote(vote(4, "a", 2, 2));
    assert!(output.vote_granted);
    assert_eq!(output.term, 4);
    assert_eq!(raft.inner.state.raft_data.voted_for, Some("a".to_owned()));
    assert_eq!(raft.inner.state.raft_data.current_term, 4);
    assert_eq!(raft.inner.state.raft_data.node_type, RaftNodeType::Follower(true));

    let other = raft.request_vote(vote(5, "b", 9, 9));
    assert!(!other.vote_granted);
    assert_eq!(other.term, 4);
    assert!(raft.request_vote(vote(4, "a", 2, 2)).vote_granted);
}

#[test]
fn entries_of_an_old_term_are_refused() {
    let mut raft = follower();
    let output = raft.append_entries(append(2, 2, 2, vec![LogEntry::noop(2)])).unwrap();
    assert!(!output.success);
    assert_eq!(output.term, 3);
    assert_eq!(raft.inner.state.raft_data.log.len(), 3);
}

#[test]
fn entries_behind_a_missing_entry_are_refused() {
    let mut raft = follower();
    let output = raft.append_entries(append(3, 3, 2, vec![LogEntry::noop(3)])).unwrap();
    assert!(!output.success);
    assert_eq!(output.term, 2);
    let output = raft.append_entries(append(3, -1, 2, vec![LogEntry::noop(3)])).unwrap();
    assert!(!output.success);
    let output = raft.append_entries(append(3, 1, 2, vec![LogEntry::noop(3)])).unwrap();
    assert!(!output.success);
    assert_eq!(raft.inner.state.raft_data.log.len(), 3);
    assert_eq!(raft.inner.state.raft_data.node_type, RaftNodeType::Follower(false));
}

#[test]
fn accepted_entries_replace_the_end_of_the_log() {
    let mut raft = follower();
    let entries = vec![LogEntry::noop(3), LogEntry::noop(3)];
    let output = raft.append_entries(append(5, 1, 1, entries)).unwrap();
    assert!(output.success);
    assert_eq!(output.term, 0);
    let terms: Vec<i64> = raft.inner.state.raft_data.log.iter().map(|entry| entry.term).collect();
    assert_eq!(terms, vec![-1, 1, 3, 3]);
    assert_eq!(raft.inner.state.raft_data.node_type, RaftNodeType::Follower(true));
    assert_eq!(raft.inner.state.raft_data.current_term, 3);
}

#[test]
fn the_placeholder_precedes_whatever_its_term() {
    let mut raft = follower();
    let output = raft.append_entries(append(3, 0, 77, vec![LogEntry::noop(3)])).unwrap();
    assert!(output.success);
    assert_eq!(raft.inner.state.raft_data.log.len(), 2);
}

#[test]
fn followers_do_not_commit_past_their_log() {
    let mut raft = follower();
    let mut input = append(3, 2, 2, vec![LogEntry::noop(3)]);
    input.leader_commit = 9;
    assert!(raft.append_entries(input).unwrap().success);
    assert_eq!(raft.inner.volatile_state.raft_data.commit_index, 3);
    assert_eq!(raft.inner.volatile_state.raft_data.last_applied, 3);

    let mut input = append(3, 3, 3, vec![LogEntry::noop(3), LogEntry::noop(3)]);
    input.leader_commit = 4;
    assert!(raft.append_entries(input).unwrap().success);
    assert_eq!(raft.inner.volatile_state.raft_data.commit_index, 4);

    // What is committed does not go back.
    let mut input = append(3, 5, 3, Vec::new());
    input.leader_commit = 1;
    assert!(raft.append_entries(input).unwrap().success);
    assert_eq!(raft.inner.volatile_state.raft_data.commit_index, 4);
}

#[test]
fn pings_are_answered_with_the_port() {
    let raft = follower();
    assert_eq!(raft.ping(&PingInput { requester: "1".to_owned() }).responder, "5000");
}

#[test]
fn silence_starts_an_election() {
    let mut raft = follower();
    raft.inner.state.raft_data.node_type = RaftNodeType::Follower(true);
    assert!(matches!(beat(&mut raft), HeartbeatAction::Rest));
    assert_eq!(raft.inner.state.raft_data.node_type, RaftNodeType::Follower(false));
    match beat(&mut raft) {
        HeartbeatAction::RequestVotes(input) => {
            assert_eq!(input.term, 4);
            assert_eq!(input.candidate_id, "[::1]:5000");
            assert_eq!(input.last_log_index, 2);
            assert_eq!(input.last_log_term, 2);
        },
        other => panic!("unexpected action: {:?}", other),
    }
    assert_eq!(raft.inner.state.raft_data.node_type, RaftNodeType::Candidate);
    assert_eq!(raft.inner.state.raft_data.voted_for, Some("[::1]:5000".to_owned()));
    // A candidate stands again in the next term.
    assert!(matches!(beat(&mut raft), HeartbeatAction::RequestVotes(_)));
    assert_eq!(raft.inner.state.raft_data.current_term, 5);
}

#[test]
fn nodes_that_start_up_wait() {
    let mut raft = follower();
    raft.inner.state.raft_data.node_type = RaftNodeType::StartingUp;
    match beat(&mut raft) {
        HeartbeatAction::Wait(millis) => {
            assert_eq!(millis, STARTING_UP_PAUSE);
            assert_eq!(millis, 5000);
        },
        other => panic!("unexpected action: {:?}", other),
    }
    assert_eq!(raft.inner.state.raft_data.node_type, RaftNodeType::StartingUp);
    assert_eq!(HEARTBEAT_INTERVAL, 500);
}

#[test]
fn leaders_share_an_entry_that_does_nothing() {
    let mut raft = follower();
    raft.inner.state.raft_data.node_type = RaftNodeType::Leader;
    match beat(&mut raft) {
        HeartbeatAction::ShareLog(input) => {
            assert_eq!(input.leader_id, "[::1]:5000");
            assert_eq!(input.term, 3);
            assert_eq!(input.entries.len(), 1);
            assert_eq!(input.entries[0].log_action, 2);
            assert!(input.entries[0].value.is_none());
            assert_eq!(input.entries[0].term, 3);
            assert_eq!(input.prev_log_index, 2);
            assert_eq!(input.prev_log_term, 2);
        },
        other => panic!("unexpected action: {:?}", other),
    }
    assert_eq!(raft.inner.state.raft_data.log.len(), 4);
}

#[test]
fn followers_and_candidates_wait_a_little_longer() {
    let mut seen: Vec<u64> = Vec::new();
    for _ in 0..200 {
        let follower = RaftImpl::<()>::heartbeat_pause(RaftNodeType::Follower(true));
        let candidate = RaftImpl::<()>::heartbeat_pause(RaftNodeType::Candidate);
        assert!((50..150).contains(&follower));
        assert!((50..150).contains(&candidate));
        if !seen.contains(&follower) {
            seen.push(follower);
        }
    }
    assert!(seen.len() > 1);
    assert_eq!(RaftImpl::<()>::heartbeat_pause(RaftNodeType::Leader), 0);
    assert_eq!(RaftImpl::<()>::heartbeat_pause(RaftNodeType::StartingUp), 0);
}

#[test]
fn updates_that_cannot_be_made_are_found() {
    let raft = follower();
    assert!(raft.inner.check_take(&append(3, 2, 2, Vec::new())));
    assert!(!raft.inner.check_take(&append(3, i64::MAX, 2, Vec::new())));
    let mut cut = append(3, -1, 2, Vec::new());
    assert!(raft.inner.check_take(&cut));
    cut.leader_commit = 1;
    assert!(!raft.inner.check_take(&cut));
    let delete = LogEntry { log_action: 1, value: None, term: 3 };
    let mut input = append(3, 2, 2, vec![delete]);
    assert!(raft.inner.check_take(&input));
    input.leader_commit = 3;
    assert!(!raft.inner.check_take(&input));
}
