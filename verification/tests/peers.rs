use risdb::database::PeerArgs;
use risdb::messages::{AppendEntriesOutput, LogEntry, RequestVoteOutput};
use risdb::raft::error::{
    CandidateError, HeartbeatError, LeaderError, SetupError, StateMachineError, WriteError,
};
use risdb::raft::node::{Database, NodeAddr, RaftImpl};
use risdb::raft::peer::{
    append_entries_input, CandidateActions, LeaderActions, PeerConnections, PeerData, PeerReply,
    PeerSetup, RaftLeaderState,
};
use risdb::raft::setup::{ping_input, CONNECT_PAUSE};
use risdb::raft::state::{RaftNodeType, RaftStableData, RaftVolatileData};

type Append = PeerReply<AppendEntriesOutput>;
type Vote = PeerReply<RequestVoteOutput>;

fn taken() -> Append {
    PeerReply::Replied(AppendEntriesOutput { success: true, term: 0 })
}

fn voted(vote_granted: bool) -> Vote {
    PeerReply::Replied(RequestVoteOutput { term: 1, vote_granted })
}

fn connections(count: usize) -> PeerConnections<u8> {
    let mut peers = PeerConnections::new();
    for i in 0..count {
        peers.handle_client_connection(format!("http://[::1]:{}", i), i as u8);
    }
    peers
}

fn stable(entries: usize) -> RaftStableData {
    RaftStableData {
        node_type: RaftNodeType::Leader,
        current_term: 6,
        voted_for: None,
        log: (0..entries).map(|i| LogEntry::noop(i as i64)).collect(),
    }
}

#[test]
fn connections_are_made_once_per_address() {
    let mut peers: PeerConnections<u8> = PeerConnections::new();
    peers.handle_client_connection("a".to_owned(), 1);
    peers.handle_client_connection("b".to_owned(), 2);
    peers.handle_client_connection("a".to_owned(), 3);
    assert_eq!(peers.peers.len(), 2);
    assert_eq!(peers.peers[0].addr, "a");
    assert_eq!(peers.peers[0].data.connection, Some(3));
    assert_eq!(
        peers.peers[1].data.leader_state,
        Some(RaftLeaderState { next_index: 1, match_index: 0 })
    );
    assert_eq!(peers.find(&"b".to_owned()), Some(1));
    assert_eq!(peers.find(&"c".to_owned()), None);
    assert_eq!(ping_input(50001).requester, "50001");
}

#[test]
fn messages_carry_the_end_of_the_log() {
    let data = stable(5);
    let entries = vec![LogEntry::noop(3), LogEntry::noop(4)];
    let input = append_entries_input(&"me".to_owned(), &data, 1, &entries);
    assert_eq!(input.leader_id, "me");
    assert_eq!(input.term, 6);
    assert_eq!(input.entries.len(), 2);
    assert_eq!(input.prev_log_index, 2);
    assert_eq!(input.prev_log_term, 2);
    assert_eq!(input.leader_commit, 1);
}

#[test]
fn results_of_single_peers() {
    let data = stable(4);
    let addr = "http://[::1]:9".to_owned();
    let mut count = 1;

    let mut unknown: PeerData<u8> = PeerData { connection: Some(1), leader_state: None };
    let result = <PeerConnections<u8> as LeaderActions<u8>>::request_append_entries_peer(
        &data, &mut count, &addr, &mut unknown, 0, &taken(),
    );
    match result {
        Err(LeaderError::NoLeaderStateFound(text)) => assert_eq!(text, "No leader state found"),
        other => panic!("unexpected result: {:?}", other),
    }

    let mut peer = PeerData {
        connection: Some(1u8),
        leader_state: Some(RaftLeaderState { next_index: 1, match_index: 0 }),
    };
    let result = <PeerConnections<u8> as LeaderActions<u8>>::request_append_entries_peer(
        &data, &mut count, &addr, &mut peer, 0, &PeerReply::Unreached,
    );
    match result {
        Err(LeaderError::FailedToAppendEntries(failed)) => assert_eq!(failed, addr),
        other => panic!("unexpected result: {:?}", other),
    }
    assert_eq!(count, 1);

    let result = <PeerConnections<u8> as LeaderActions<u8>>::request_append_entries_peer(
        &data, &mut count, &addr, &mut peer, 0, &taken(),
    );
    assert_eq!(result.ok(), Some(3));
    assert_eq!(count, 2);
    assert_eq!(peer.leader_state, Some(RaftLeaderState { next_index: 4, match_index: 3 }));

    let result = <PeerConnections<u8> as LeaderActions<u8>>::request_append_entries_peer(
        &data, &mut count, &addr, &mut peer, 4, &taken(),
    );
    assert_eq!(result.ok(), Some(3));
    assert_eq!(count, 2);
}

#[test]
fn commit_index_is_the_smallest_result() {
    let peers = connections(3);
    let results = vec![Ok(4), Err(LeaderError::FailedToAppendEntries("x".to_owned())), Ok(2)];
    assert_eq!(peers.calculate_new_commit_index(2, &results).ok(), Some(2));
    match peers.calculate_new_commit_index(1, &results) {
        Err(LeaderError::NotEnoughPeersUpdated(text)) => {
            assert_eq!(text, "Not enough peers were updated to get a new commit index")
        },
        other => panic!("unexpected result: {:?}", other),
    }
    match peers.calculate_new_commit_index(2, &Vec::new()) {
        Err(LeaderError::NoMinimumPeerCommitIndexFound(text)) => assert_eq!(
            text,
            "Failed to get minimum peer commit index after successful communication to the majority"
        ),
        other => panic!("unexpected result: {:?}", other),
    }
}

#[test]
fn sharing_counts_the_leader_itself() {
    let mut peers = connections(3);
    let replies: Vec<Append> = vec![taken(), PeerReply::Unreached, taken()];
    let shared = peers.share_to_peers(&stable(4), 0, &replies);
    assert_eq!(shared.count_communicated, 3);
    assert_eq!(shared.request_append_entries_results.len(), 3);
    assert!(shared.request_append_entries_results[1].is_err());
    assert_eq!(peers.peers[0].data.leader_state.unwrap().match_index, 3);
    assert_eq!(peers.peers[1].data.leader_state.unwrap().match_index, 0);
}

#[test]
fn writes_need_a_majority_of_all_servers() {
    let data = stable(4);
    for (reached, committed) in [(0, false), (1, false), (2, true), (3, true)] {
        let mut peers = connections(3);
        let replies: Vec<Append> =
            (0..3).map(|i| if i < reached { taken() } else { PeerReply::Unreached }).collect();
        assert_eq!(peers.count_usable(&replies), Some(reached));
        let mut volatile = RaftVolatileData { commit_index: 1, last_applied: 1 };
        let result = peers.write_and_share_logs(&data, &mut volatile, &replies);
        assert_eq!(result.is_ok(), committed);
        assert_eq!(volatile.commit_index, if committed { 3 } else { 1 });
        if let Err(StateMachineError::FailedToWriteToLogs(text)) = result {
            assert_eq!(text, "Data not committed, not enough peers received updates");
        }
    }
}

fn refused() -> Append {
    PeerReply::Replied(AppendEntriesOutput { success: false, term: 3 })
}

#[test]
fn refusals_count_like_silence() {
    let addr = "http://[::1]:9".to_owned();
    let state = RaftLeaderState { next_index: 2, match_index: 1 };
    let mut peer = PeerData { connection: Some(1u8), leader_state: Some(state) };
    let mut count = 1;
    let result = <PeerConnections<u8> as LeaderActions<u8>>::request_append_entries_peer(
        &stable(4), &mut count, &addr, &mut peer, 0, &refused(),
    );
    assert!(matches!(result, Err(LeaderError::FailedToAppendEntries(failed)) if failed == addr));
    assert_eq!(peer.leader_state, Some(state));
    assert_eq!(count, 1);

    let entries = vec![LogEntry::noop(0)];
    let result = RaftImpl::request_append_entries_peer(
        &mut count, &addr, &mut peer, 0, &entries, &refused(),
    );
    assert!(matches!(result, Err(LeaderError::FailedToAppendEntries(failed)) if failed == addr));
    assert_eq!(peer.leader_state, Some(state));
    assert_eq!(count, 1);

    let mut peers = connections(2);
    let mut volatile = RaftVolatileData { commit_index: 0, last_applied: 0 };
    let replies = vec![refused(), refused()];
    assert!(peers.write_and_share_logs(&stable(2), &mut volatile, &replies).is_err());
    assert_eq!(volatile.commit_index, 0);
    let replies = vec![refused(), taken()];
    assert!(peers.write_and_share_logs(&stable(2), &mut volatile, &replies).is_ok());
    assert_eq!(volatile.commit_index, 1);
}

#[test]
fn acknowledgements_are_counted_with_one_reply_per_peer() {
    let peers = connections(2);
    assert_eq!(peers.count_usable(&vec![taken(), refused()]), Some(1));
    assert_eq!(peers.count_usable(&vec![taken()]), None);
    assert_eq!(peers.count_usable(&vec![taken(), taken()]), Some(2));
}

#[test]
fn votes_are_tallied_with_the_own_vote() {
    let peers = connections(4);
    let won = |replies: Vec<Vote>| peers.request_votes(&replies).won_election;
    assert!(!won(vec![voted(true), voted(false), PeerReply::Unreached, voted(false)]));
    assert!(won(vec![voted(true), voted(false), PeerReply::Unreached, voted(true)]));
    assert!(!peers.determine_election_result(2));
    assert!(peers.determine_election_result(3));
}

#[test]
fn missing_votes_are_explained() {
    let addr = "http://\"x\"".to_owned();
    let alone: PeerData<u8> = PeerData { connection: None, leader_state: None };
    let ask = |data: &PeerData<u8>, reply: &Vote| {
        <PeerConnections<u8> as CandidateActions<u8>>::request_vote_from_peer(&addr, data, reply)
    };
    match ask(&alone, &voted(true)) {
        Err(CandidateError::NoClientFound(text)) => {
            assert_eq!(text, "Raft Client found for \"http://\\\"x\\\"\"")
        },
        other => panic!("unexpected result: {:?}", other),
    }
    let peer: PeerData<u8> = PeerData { connection: Some(1), leader_state: None };
    match ask(&peer, &PeerReply::Unreached) {
        Err(CandidateError::RequestForVoteFailure(text)) => {
            assert_eq!(text, format!("Failed to request vote from peer {:?}", addr))
        },
        other => panic!("unexpected result: {:?}", other),
    }
    assert_eq!(ask(&peer, &voted(true)).ok(), Some(true));
    assert_eq!(ask(&peer, &voted(false)).ok(), Some(false));
}

#[test]
fn a_lost_election_takes_the_vote_back() {
    let peers = connections(2);
    let mut data = stable(1);
    data.node_type = RaftNodeType::Candidate;
    data.voted_for = Some("me".to_owned());
    RaftImpl::conclude_election(&peers, &mut data, &vec![voted(false), PeerReply::Unreached]);
    assert_eq!(data.node_type, RaftNodeType::Candidate);
    assert_eq!(data.voted_for, None);
    data.voted_for = Some("me".to_owned());
    RaftImpl::conclude_election(&peers, &mut data, &vec![voted(true), PeerReply::Unreached]);
    assert_eq!(data.node_type, RaftNodeType::Leader);
    assert_eq!(data.voted_for, Some("me".to_owned()));
}

#[test]
fn a_leader_without_its_peers_stops() {
    let mut peers = connections(2);
    let mut volatile = RaftVolatileData { commit_index: 0, last_applied: 0 };
    let replies: Vec<Append> = vec![PeerReply::Unreached, PeerReply::Unreached];
    match RaftImpl::conclude_heartbeat(&mut peers, &stable(2), &mut volatile, &replies) {
        Err(HeartbeatError::FailedToPingPeers(StateMachineError::FailedToWriteToLogs(text))) => {
            assert_eq!(text, "Data not committed, not enough peers received updates")
        },
        other => panic!("unexpected result: {:?}", other),
    }
}

#[test]
fn peers_are_given_up_behind_ten_attempts() {
    let peers = ["a", "b", "c"].map(|addr| PeerArgs { addr: addr.to_owned() });
    let mut connecting = RaftImpl::<u8>::connect_to_peers(peers.into_iter().collect());
    assert_eq!(connecting.target(), Some("a".to_owned()));
    for _ in 0..10 {
        assert_eq!(connecting.attempted(false), Some(CONNECT_PAUSE));
    }
    assert_eq!(CONNECT_PAUSE, 5000);
    assert_eq!(connecting.target(), Some("b".to_owned()));
    for _ in 0..9 {
        assert_eq!(connecting.attempted(false), Some(5000));
    }
    assert_eq!(connecting.target(), Some("b".to_owned()));
    assert_eq!(connecting.attempted(true), None);
    assert_eq!(connecting.target(), Some("c".to_owned()));
    assert_eq!(connecting.attempted(true), None);
    assert_eq!(connecting.target(), None);

    let mut data = stable(1);
    data.node_type = RaftNodeType::StartingUp;
    match connecting.finish(&mut data) {
        Err(SetupError::FailedToConnectToPeers(failed)) => assert_eq!(failed, vec!["a".to_owned()]),
        other => panic!("unexpected result: {:?}", other),
    }
    assert_eq!(data.node_type, RaftNodeType::StartingUp);
}

#[test]
fn a_connected_node_becomes_a_follower() {
    let mut connecting =
        RaftImpl::<u8>::connect_to_peers(vec![PeerArgs { addr: "a".to_owned() }]);
    connecting.attempted(true);
    let mut data = stable(1);
    data.node_type = RaftNodeType::StartingUp;
    assert!(connecting.finish(&mut data).is_ok());
    assert_eq!(data.node_type, RaftNodeType::Follower(false));
}

#[test]
fn errors_are_shown_as_they_are_debugged() {
    let write = || StateMachineError::FailedToWriteToLogs("a \"b\"\n".to_owned());
    let apply = || StateMachineError::FailedToApplyLogs("c".to_owned());
    assert_eq!(write().show(), format!("{:?}", write()));
    assert_eq!(apply().show(), format!("{:?}", apply()));
    for error in [
        WriteError::NotTheLeader,
        WriteError::FailedToParseLogs(write()),
        WriteError::FailedToCommunicateToMajority(apply()),
        WriteError::FailedToUpdateStateMachine(write()),
    ] {
        assert_eq!(error.show(), format!("{:?}", error));
    }
}

#[test]
fn heartbeat_errors_come_from_their_causes() {
    let error = HeartbeatError::from("text".to_owned());
    assert!(matches!(error, HeartbeatError::CustomError(text) if text == "text"));
    let error = HeartbeatError::from(StateMachineError::FailedToApplyLogs("x".to_owned()));
    assert!(matches!(error, HeartbeatError::FailedToPingPeers(_)));
}

#[test]
fn indices_of_peers_grow_by_what_they_take() {
    let addr = NodeAddr { text: "[::1]:1".to_owned(), port: 1 };
    let mut raft: RaftImpl<u8> = RaftImpl::new(Database::new(addr));
    raft.inner.peer_connections = connections(3);
    raft.inner.peer_connections.peers[2].data.leader_state =
        Some(RaftLeaderState { next_index: 5, match_index: 4 });
    let entries = vec![LogEntry::noop(0), LogEntry::noop(0)];
    raft.write_to_own_log(&entries);
    assert_eq!(raft.inner.state.raft_data.log.len(), 3);

    let state = raft.inner.peer_connections.peers[2].data.leader_state.unwrap();
    let message = raft.append_entries_message(&state, 0, &entries);
    assert_eq!(message.prev_log_index, 4);
    assert_eq!(message.prev_log_term, 0);
    assert_eq!(message.term, 0);
    assert_eq!(message.leader_id, "[::1]:1");

    let replies: Vec<Append> = vec![taken(), PeerReply::Unreached, taken()];
    assert!(raft.write_and_share_logs(&entries, &replies).is_ok());
    assert_eq!(raft.inner.volatile_state.raft_data.commit_index, 2);
    let states: Vec<i64> = raft
        .inner
        .peer_connections
        .peers
        .iter()
        .map(|peer| peer.data.leader_state.unwrap().next_index)
        .collect();
    assert_eq!(states, vec![3, 1, 7]);
}

#[test]
fn counted_peers_have_to_reach_the_commit_index() {
    let addr = NodeAddr { text: "[::1]:1".to_owned(), port: 1 };
    let mut raft: RaftImpl<u8> = RaftImpl::new(Database::new(addr));
    raft.inner.peer_connections = connections(2);
    raft.inner.volatile_state.raft_data.commit_index = 5;
    let entries = vec![LogEntry::noop(0)];
    let replies: Vec<Append> = vec![taken(), taken()];
    let shared = raft.share_to_peers(5, &entries, &replies);
    assert_eq!(shared.count_communicated, 1);
    assert_eq!(raft.calculate_new_commit_index(1, &vec![Ok(3)]).ok(), Some(3));
    assert!(matches!(
        raft.calculate_new_commit_index(0, &vec![Ok(3)]),
        Err(LeaderError::NotEnoughPeersUpdated(_))
    ));
    assert!(raft.write_and_share_logs(&entries, &replies).is_err());
    assert_eq!(raft.inner.volatile_state.raft_data.commit_index, 5);
}

#[test]
fn machine_limits_are_checked_beforehand() {
    let addr = NodeAddr { text: "[::1]:1".to_owned(), port: 1 };
    let node: Database<u8> = Database::new(addr);
    assert!(node.check_write(7));
    assert!(node.peer_connections.check_room());
    let mut data = stable(1);
    assert!(data.check_beat());
    data.node_type = RaftNodeType::Candidate;
    data.current_term = i64::MAX;
    assert!(!data.check_beat());
    data.node_type = RaftNodeType::Follower(true);
    assert!(data.check_beat());
}
