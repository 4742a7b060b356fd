use risdb::messages::{
    AppendEntriesInput, AppendEntriesOutput, GetValueInput, ProposeValueInput, RequestVoteInput,
    RequestVoteOutput, Value,
};
use risdb::raft::follower::FollowerActions;
use risdb::raft::heartbeat::HeartbeatAction;
use risdb::raft::node::{Database, NodeAddr, RaftImpl};
use risdb::raft::peer::{PeerReply, PeerSetup};
use risdb::raft::state::RaftNodeType;

fn node(port: u16, peers: &[u16]) -> RaftImpl<()> {
    let addr = NodeAddr { text: format!("[::1]:{}", port), port };
    let mut raft: RaftImpl<()> = RaftImpl::new(Database::new(addr));
    for peer in peers {
        raft.inner
            .peer_connections
            .handle_client_connection(format!("http://[::1]:{}", peer), ());
    }
    raft.inner.state.raft_data.node_type = RaftNodeType::Follower(false);
    raft
}

fn three_nodes() -> Vec<RaftImpl<()>> {
    vec![
        node(50000, &[50001, 50002]),
        node(50001, &[50000, 50002]),
        node(50002, &[50000, 50001]),
    ]
}

fn copy_vote(input: &RequestVoteInput) -> RequestVoteInput {
    RequestVoteInput {
        term: input.term,
        candidate_id: input.candidate_id.clone(),
        last_log_index: input.last_log_index,
        last_log_term: input.last_log_term,
    }
}

fn copy_append(input: &AppendEntriesInput) -> AppendEntriesInput {
    AppendEntriesInput {
        leader_id: input.leader_id.clone(),
        term: input.term,
        entries: input.entries.clone(),
        prev_log_index: input.prev_log_index,
        prev_log_term: input.prev_log_term,
        leader_commit: input.leader_commit,
    }
}

fn beat(raft: &mut RaftImpl<()>) -> HeartbeatAction {
    let inner = &mut raft.inner;
    RaftImpl::heartbeat(
        &inner.addr.text,
        &inner.peer_connections,
        &mut inner.state.raft_data,
        &inner.volatile_state.raft_data,
    )
}

/// Lets a node stand for election; those that do not answer are left out.
fn elect(nodes: &mut Vec<RaftImpl<()>>, candidate: usize, down: &[usize]) {
    let input = match beat(&mut nodes[candidate]) {
        HeartbeatAction::RequestVotes(input) => input,
        other => panic!("no election: {:?}", other),
    };
    let mut replies: Vec<PeerReply<RequestVoteOutput>> = Vec::new();
    for i in 0..nodes.len() {
        if i == candidate {
            continue;
        }
        if down.contains(&i) {
            replies.push(PeerReply::Unreached);
        } else {
            replies.push(PeerReply::Replied(nodes[i].request_vote(copy_vote(&input))));
        }
    }
    let inner = &mut nodes[candidate].inner;
    RaftImpl::conclude_election(&inner.peer_connections, &mut inner.state.raft_data, &replies);
}

/// Sends entries to all other nodes.
fn share(
    nodes: &mut Vec<RaftImpl<()>>,
    leader: usize,
    input: &AppendEntriesInput,
    down: &[usize],
) -> Vec<PeerReply<AppendEntriesOutput>> {
    let mut replies = Vec::new();
    for i in 0..nodes.len() {
        if i == leader {
            continue;
        }
        if down.contains(&i) {
            replies.push(PeerReply::Unreached);
        } else {
            assert!(nodes[i].inner.check_take(input));
            replies.push(PeerReply::Replied(nodes[i].append_entries(copy_append(input)).unwrap()));
        }
    }
    replies
}

fn lead(nodes: &mut Vec<RaftImpl<()>>, leader: usize, down: &[usize]) -> bool {
    let input = match beat(&mut nodes[leader]) {
        HeartbeatAction::ShareLog(input) => input,
        other => panic!("no leader: {:?}", other),
    };
    let replies = share(nodes, leader, &input, down);
    let inner = &mut nodes[leader].inner;
    RaftImpl::conclude_heartbeat(
        &mut inner.peer_connections,
        &inner.state.raft_data,
        &mut inner.volatile_state.raft_data,
        &replies,
    )
    .is_ok()
}

fn write(
    nodes: &mut Vec<RaftImpl<()>>,
    leader: usize,
    key: &str,
    value: &str,
    down: &[usize],
) -> Result<String, String> {
    let request = ProposeValueInput {
        request_id: "7".to_owned(),
        values: vec![Value { key: key.to_owned(), value: value.to_owned() }],
    };
    let input = nodes[leader].propose_value(&request)?;
    let replies = share(nodes, leader, &input, down);
    assert!(nodes[leader].inner.check_conclude(&replies));
    nodes[leader]
        .conclude_proposal(request.request_id, &replies)
        .map(|output| output.request_id)
}

fn read(raft: &RaftImpl<()>, key: &str) -> Option<String> {
    let output = raft
        .get_value(GetValueInput { request_id: "1".to_owned(), keys: vec![key.to_owned()] })
        .unwrap();
    assert_eq!(output.request_id, "1");
    output.values.first().map(|value| value.value.clone())
}

#[test]
fn three_nodes_elect_a_leader_and_replicate() {
    let mut nodes = three_nodes();
    elect(&mut nodes, 0, &[]);
    assert_eq!(nodes[0].inner.state.raft_data.node_type, RaftNodeType::Leader);
    assert_eq!(nodes[1].inner.state.raft_data.node_type, RaftNodeType::Follower(true));
    assert_eq!(nodes[1].inner.state.raft_data.voted_for, Some("[::1]:50000".to_owned()));
    assert_eq!(nodes[2].inner.state.raft_data.current_term, 1);

    assert_eq!(write(&mut nodes, 0, "key", "value", &[]), Ok("7".to_owned()));
    assert_eq!(read(&nodes[0], "key"), Some("value".to_owned()));
    assert_eq!(read(&nodes[1], "key"), None);

    assert!(lead(&mut nodes, 0, &[]));
    assert_eq!(read(&nodes[1], "key"), Some("value".to_owned()));
    assert_eq!(read(&nodes[2], "key"), Some("value".to_owned()));
    for i in 0..3 {
        assert_eq!(nodes[i].inner.state.raft_data.log.len(), 3);
    }
}

#[test]
fn two_nodes_keep_going_without_the_leader() {
    let mut nodes = three_nodes();
    elect(&mut nodes, 0, &[]);
    assert_eq!(write(&mut nodes, 0, "before", "1", &[]), Ok("7".to_owned()));

    // The others wait one beat for the ping that they got, and one for the leader that is gone.
    assert!(matches!(beat(&mut nodes[1]), HeartbeatAction::Rest));
    assert!(matches!(beat(&mut nodes[2]), HeartbeatAction::Rest));
    // The vote of the second node still belongs to the old leader until it stands itself.
    elect(&mut nodes, 2, &[0]);
    assert_eq!(nodes[2].inner.state.raft_data.node_type, RaftNodeType::Candidate);
    assert_eq!(nodes[2].inner.state.raft_data.voted_for, None);
    elect(&mut nodes, 1, &[0]);
    assert_eq!(nodes[1].inner.state.raft_data.node_type, RaftNodeType::Leader);
    assert_eq!(nodes[1].inner.state.raft_data.current_term, 2);

    assert_eq!(write(&mut nodes, 1, "after", "2", &[0]), Ok("7".to_owned()));
    assert!(lead(&mut nodes, 1, &[0]));
    assert_eq!(read(&nodes[2], "before"), Some("1".to_owned()));
    assert_eq!(read(&nodes[2], "after"), Some("2".to_owned()));
}

#[test]
fn a_leader_alone_commits_nothing() {
    let mut nodes = three_nodes();
    elect(&mut nodes, 0, &[]);
    let result = write(&mut nodes, 0, "key", "value", &[1, 2]);
    assert_eq!(
        result,
        Err("Failed to write the new values due to: FailedToCommunicateToMajority(\
             FailedToWriteToLogs(\"Data not committed, not enough peers received updates\"))"
            .to_owned())
    );
    assert_eq!(read(&nodes[0], "key"), None);
    assert!(!lead(&mut nodes, 0, &[1, 2]));
}

#[test]
fn half_of_four_nodes_is_no_majority() {
    let ports = [1u16, 2, 3, 4];
    let mut nodes: Vec<RaftImpl<()>> = ports
        .iter()
        .map(|port| {
            let others: Vec<u16> = ports.iter().copied().filter(|other| other != port).collect();
            node(*port, &others)
        })
        .collect();
    // Two votes of four are enough to lead, but not to commit.
    elect(&mut nodes, 0, &[2, 3]);
    assert_eq!(nodes[0].inner.state.raft_data.node_type, RaftNodeType::Leader);
    assert!(write(&mut nodes, 0, "key", "value", &[2, 3]).is_err());
    assert_eq!(nodes[0].inner.volatile_state.raft_data.commit_index, 0);
}

#[test]
fn only_the_leader_writes() {
    let mut nodes = three_nodes();
    let result = write(&mut nodes, 1, "key", "value", &[]);
    assert_eq!(
        result,
        Err("Failed to write the new values due to: NotTheLeader".to_owned())
    );
    assert_eq!(nodes[1].inner.state.raft_data.log.len(), 1);
}

#[test]
fn the_last_value_of_a_key_is_read() {
    let mut nodes = three_nodes();
    elect(&mut nodes, 0, &[]);
    let request = ProposeValueInput {
        request_id: "9".to_owned(),
        values: vec![
            Value { key: "a".to_owned(), value: "1".to_owned() },
            Value { key: "b".to_owned(), value: "2".to_owned() },
            Value { key: "a".to_owned(), value: "3".to_owned() },
        ],
    };
    let input = nodes[0].propose_value(&request).unwrap();
    assert_eq!(input.entries.len(), 3);
    assert_eq!(input.prev_log_index, 0);
    assert_eq!(input.prev_log_term, -1);
    let replies = share(&mut nodes, 0, &input, &[]);
    nodes[0].conclude_proposal(request.request_id, &replies).unwrap();
    assert_eq!(read(&nodes[0], "a"), Some("3".to_owned()));
    assert_eq!(read(&nodes[0], "b"), Some("2".to_owned()));
}

#[test]
fn a_failed_update_is_reported_to_the_leader() {
    let mut follower = node(50001, &[50000]);
    let broken = risdb::messages::LogEntry { log_action: 9, value: None, term: 1 };
    let input = AppendEntriesInput {
        leader_id: "[::1]:50000".to_owned(),
        term: 1,
        entries: vec![broken],
        prev_log_index: 0,
        prev_log_term: -1,
        leader_commit: 1,
    };
    assert!(follower.inner.check_take(&input));
    assert_eq!(
        follower.append_entries(input).err(),
        Some("Failed to update the state machine".to_owned())
    );
    assert_eq!(follower.inner.volatile_state.raft_data.commit_index, 1);
    assert_eq!(follower.inner.volatile_state.raft_data.last_applied, 0);
}

#[test]
fn writing_to_logs_only_grows_the_log() {
    let mut raft = node(50001, &[]);
    raft.write_to_logs(vec![risdb::messages::LogEntry::noop(4)]);
    assert_eq!(raft.inner.state.raft_data.log.len(), 2);
    assert_eq!(raft.inner.state.raft_data.log[1].term, 4);
    assert_eq!(raft.inner.state.raft_data.current_term, 0);
}

#[test]
fn reads_give_the_keys_that_exist_in_order() {
    let mut nodes = three_nodes();
    elect(&mut nodes, 0, &[]);
    assert!(write(&mut nodes, 0, "a", "1", &[]).is_ok());
    assert!(write(&mut nodes, 0, "b", "2", &[]).is_ok());
    assert!(write(&mut nodes, 0, "b", "3", &[]).is_ok());
    let keys = ["b", "x", "a", "b"].map(|key| key.to_owned()).to_vec();
    let output =
        nodes[0].get_value(GetValueInput { request_id: "4".to_owned(), keys }).unwrap();
    let pairs: Vec<(&str, &str)> =
        output.values.iter().map(|value| (value.key.as_str(), value.value.as_str())).collect();
    assert_eq!(pairs, vec![("b", "3"), ("a", "1"), ("b", "3")]);
    assert_eq!(output.request_id, "4");
}

#[test]
fn refused_writes_leave_the_data_alone() {
    let mut nodes = three_nodes();
    elect(&mut nodes, 0, &[]);
    assert!(write(&mut nodes, 0, "a", "1", &[]).is_ok());
    assert!(write(&mut nodes, 0, "a", "2", &[1, 2]).is_err());
    assert_eq!(read(&nodes[0], "a"), Some("1".to_owned()));
}
