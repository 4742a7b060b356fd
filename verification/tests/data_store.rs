use risdb::messages::{LogAction, LogEntry, Value};
use risdb::raft::data_store::{check_update, DataStore};
use risdb::raft::error::StateMachineError;
use risdb::raft::node::{Database, NodeAddr, RaftImpl};

fn node() -> Database<()> {
    let addr = NodeAddr { text: "[::1]:5000".to_owned(), port: 5000 };
    RaftImpl::new(Database::new(addr)).inner
}

fn put(key: &str, value: &str, term: i64) -> LogEntry {
    LogEntry {
        log_action: LogAction::Put.code(),
        value: Some(Value { key: key.to_owned(), value: value.to_owned() }),
        term,
    }
}

fn noop(term: i64) -> LogEntry {
    LogEntry { log_action: LogAction::Noop.code(), value: None, term }
}

fn assert_holds(store: &DataStore, expected: &[(&str, &str)]) {
    assert_eq!(store.data.len(), expected.len());
    for (key, value) in expected {
        assert_eq!(store.data.get(key).map(|stored| stored.as_str()), Some(*value));
    }
}

#[test]
fn noop_apply_to_state_machine() {
    let mut raft = node();

    let result = raft.data_store.apply_to_state_machine(&LogEntry {
        log_action: LogAction::Noop.code(),
        value: None,
        term: 0,
    });

    assert!(result.is_ok(), "Noop log entry should not cause an error, result was `{:?}`", result);
    assert_holds(&raft.data_store, &[]);
}

#[test]
fn put_apply_to_state_machine() {
    let mut raft = node();

    let result = raft.data_store.apply_to_state_machine(&put("key", "value", 0));

    assert!(result.is_ok(), "Put log entry should not cause an error, result was `{:?}`", result);
    assert_holds(&raft.data_store, &[("key", "value")]);
}

#[test]
fn multiple_put_apply_to_state_machine() {
    let mut raft = node();

    let _ = raft.data_store.apply_to_state_machine(&put("key", "value", 0));
    let result = raft.data_store.apply_to_state_machine(&put("key", "value_2", 0));

    assert!(result.is_ok(), "Put log entry should not cause an error, result was `{:?}`", result);
    assert_holds(&raft.data_store, &[("key", "value_2")]);
}

#[test]
fn none_apply_to_state_machine() {
    let mut raft = node();

    let result = raft.data_store.apply_to_state_machine(&LogEntry {
        log_action: -1,
        value: None,
        term: 0,
    });

    assert!(result.is_err());
}

#[test]
fn two_noops_update_state_machine() {
    let mut raft = node();
    raft.state.raft_data.log.append(&mut vec![noop(1), noop(1)]);
    raft.volatile_state.raft_data.commit_index = 2;

    let result = raft
        .data_store
        .update_state_machine(&raft.state.raft_data, &mut raft.volatile_state.raft_data);

    assert!(result.is_ok(), "Noop log entries should not cause an error, result was `{:?}`", result);
    assert!(
        result.as_ref().unwrap() == &2,
        "Two noop log entries should be applied, result was `{:?}`",
        result
    );
    assert!(raft.volatile_state.raft_data.last_applied == 2);
    assert_holds(&raft.data_store, &[]);
}

#[test]
fn two_puts_update_state_machine() {
    let mut raft = node();
    raft.state.raft_data.log.append(&mut vec![put("world", "hello", 1), put("hello", "world", 1)]);
    raft.volatile_state.raft_data.commit_index = 2;

    let result = raft
        .data_store
        .update_state_machine(&raft.state.raft_data, &mut raft.volatile_state.raft_data);

    assert!(result.is_ok(), "Put log entries should not cause an error, result was `{:?}`", result);
    assert!(
        result.as_ref().unwrap() == &2,
        "Two put log entries should be applied, result was `{:?}`",
        result
    );
    assert!(raft.volatile_state.raft_data.last_applied == 2);
    assert_holds(&raft.data_store, &[("hello", "world"), ("world", "hello")]);
}

#[test]
fn last_applied_equals_commit_update_state_machine() {
    let mut raft = node();
    raft.state.raft_data.log.append(&mut vec![noop(1), noop(1)]);
    raft.volatile_state.raft_data.commit_index = 0;

    let result = raft
        .data_store
        .update_state_machine(&raft.state.raft_data, &mut raft.volatile_state.raft_data);

    assert!(
        result.is_ok(),
        "No applied log entries so there shouldn't be an error, result was `{:?}`",
        result
    );
    assert!(
        result.as_ref().unwrap() == &0,
        "No put log entries should be applied, result was `{:?}`",
        result
    );
    assert!(raft.volatile_state.raft_data.last_applied == 0);
    assert_holds(&raft.data_store, &[]);
}

#[test]
fn last_applied_stays_below_the_failing_index() {
    let mut raft = node();
    let missing = LogEntry { log_action: LogAction::Put.code(), value: None, term: 1 };
    raft.state.raft_data.log.append(&mut vec![put("key", "value", 1), missing, noop(1)]);
    raft.volatile_state.raft_data.commit_index = 3;

    let result = raft
        .data_store
        .update_state_machine(&raft.state.raft_data, &mut raft.volatile_state.raft_data);

    match result {
        Err(StateMachineError::FailedToApplyLogs(text)) => {
            assert_eq!(text, "Failed to get log entries value")
        },
        other => panic!("unexpected result: {:?}", other),
    }
    assert_eq!(raft.volatile_state.raft_data.last_applied, 1);
    assert_eq!(raft.volatile_state.raft_data.commit_index, 3);
    assert_holds(&raft.data_store, &[("key", "value")]);
}

#[test]
fn unknown_action_is_named_in_the_error() {
    let mut raft = node();

    let result = raft.data_store.apply_to_state_machine(&LogEntry {
        log_action: 3,
        value: None,
        term: 0,
    });

    match result {
        Err(StateMachineError::FailedToApplyLogs(text)) => {
            assert_eq!(text, "No log action was stored")
        },
        other => panic!("unexpected result: {:?}", other),
    }
}

#[test]
fn actions_keep_their_numbers() {
    assert_eq!(LogAction::Put.code(), 0);
    assert_eq!(LogAction::Delete.code(), 1);
    assert_eq!(LogAction::Noop.code(), 2);
    assert_eq!(LogAction::from_i32(0), Some(LogAction::Put));
    assert_eq!(LogAction::from_i32(1), Some(LogAction::Delete));
    assert_eq!(LogAction::from_i32(2), Some(LogAction::Noop));
    assert_eq!(LogAction::from_i32(3), None);
}

#[test]
fn updates_are_checked_for_deletes_and_missing_entries() {
    let delete = LogEntry { log_action: LogAction::Delete.code(), value: None, term: 1 };
    let unknown = LogEntry { log_action: 7, value: None, term: 1 };
    let log = vec![noop(-1), put("key", "value", 1)];
    let none: Vec<LogEntry> = Vec::new();

    assert!(check_update(&log, 2, &none, 0, 1));
    assert!(!check_update(&log, 2, &none, 0, 2));
    assert!(check_update(&log, 2, &vec![noop(1)], 0, 2));
    assert!(!check_update(&log, 2, &vec![delete.clone()], 0, 2));
    assert!(check_update(&log, 2, &vec![delete], 2, 2));
    assert!(check_update(&log, 2, &vec![unknown], 0, 9));
    assert!(!check_update(&log, 2, &none, -2, 1));
}
