//! The state machine: the data that a node has built by applying its log.

use vstd::hash_map::StringHashMap;
use vstd::prelude::*;

use crate::messages::{LogAction, LogEntry};
use crate::raft::error::StateMachineError;
use crate::raft::state::{RaftStableData, RaftVolatileData};

verus! {

/// The keys and values that a node serves.
pub struct DataStore {
    pub data: StringHashMap<String>,
}

impl View for DataStore {
    type V = Map<Seq<char>, Seq<char>>;

    open spec fn view(&self) -> Map<Seq<char>, Seq<char>> {
        self.data@.map_values(|value: String| value@)
    }
}

/// Whether the state machine can take the entry: a heartbeat, or a value to store.
pub open spec fn applies(entry: LogEntry) -> bool {
    entry.action() == Some(LogAction::Noop) || (entry.action() == Some(LogAction::Put)
        && entry.value is Some)
}

/// The data after applying one entry.
pub open spec fn apply_entry(
    data: Map<Seq<char>, Seq<char>>,
    entry: LogEntry,
) -> Map<Seq<char>, Seq<char>> {
    match entry.value {
        Some(value) if entry.action() == Some(LogAction::Put) => data.insert(
            value.key@,
            value.value@,
        ),
        _ => data,
    }
}

/// The data after applying the entries behind index `from`, up to index `to`.
pub open spec fn replay(
    data: Map<Seq<char>, Seq<char>>,
    log: Seq<LogEntry>,
    from: int,
    to: int,
) -> Map<Seq<char>, Seq<char>>
    decreases to - from,
{
    if to <= from {
        data
    } else {
        apply_entry(replay(data, log, from, to - 1), log[to])
    }
}

/// Whether every entry strictly between the two indices can be applied.
pub open spec fn all_apply(log: Seq<LogEntry>, from: int, to: int) -> bool {
    forall|j: int| from < j < to ==> applies(#[trigger] log[j])
}

/// Every entry that applying `from` to `to` gets to exists and is no `Delete`.
pub open spec fn can_update(log: Seq<LogEntry>, from: int, to: int) -> bool {
    forall|i: int|
        from < i <= to && #[trigger] all_apply(log, from, i) ==> 0 <= i < log.len()
            && log[i].action() != Some(LogAction::Delete)
}

/// The text of the error for an entry that cannot be applied.
pub open spec fn apply_failure(entry: LogEntry) -> Seq<char> {
    if entry.action() is None {
        "No log action was stored"@
    } else {
        "Failed to get log entries value"@
    }
}

/// Whether applying a log took `last_applied` from `from` to `applied` and the data from
/// `before` to `after`: it stops at `commit_index` or in front of the first entry that
/// cannot be applied, and does nothing where `from` is not below `commit_index`.
pub open spec fn caught_up(
    log: Seq<LogEntry>,
    commit_index: int,
    from: int,
    applied: int,
    before: Map<Seq<char>, Seq<char>>,
    after: Map<Seq<char>, Seq<char>>,
) -> bool {
    &&& from <= applied
    &&& all_apply(log, from, applied + 1)
    &&& after == replay(before, log, from, applied)
    &&& applied < commit_index ==> !applies(log[applied + 1])
    &&& applied >= commit_index ==> applied == if from < commit_index {
        commit_index
    } else {
        from
    }
}

/// Tells whether [`DataStore::update_state_machine`] can be called on a log that consists of the
/// first `keep` entries of `log` and of `entries`: whether the entries that it gets to exist,
/// and none of them is a `Delete`.
pub fn check_update(
    log: &Vec<LogEntry>,
    keep: usize,
    entries: &Vec<LogEntry>,
    last_applied: i64,
    commit_index: i64,
) -> (safe: bool)
    requires
        keep <= log@.len(),
        keep + entries@.len() <= i64::MAX,
    ensures
        safe <==> can_update(
            log@.take(keep as int) + entries@,
            last_applied as int,
            commit_index as int,
        ),
{
    let ghost whole = log@.take(keep as int) + entries@;
    if last_applied >= commit_index {
        return true;
    }
    let mut i: i64 = last_applied + 1;
    while i <= commit_index
        invariant
            keep <= log@.len(),
            keep + entries@.len() <= i64::MAX,
            whole == log@.take(keep as int) + entries@,
            last_applied < i,
            i <= commit_index + 1,
            i > last_applied + 1 ==> i <= whole.len(),
            all_apply(whole, last_applied as int, i as int),
            forall|j: int|
                last_applied < j < i ==> 0 <= j < whole.len() && (
                #[trigger] whole[j]).action() != Some(LogAction::Delete),
        decreases commit_index - i + 1,
    {
        assert(all_apply(whole, last_applied as int, i as int));
        if i < 0 || i >= keep as i64 + entries.len() as i64 {
            return false;
        }
        let entry = if i < keep as i64 {
            &log[i as usize]
        } else {
            &entries[(i - keep as i64) as usize]
        };
        assert(*entry == whole[i as int]);
        match LogAction::from_i32(entry.log_action) {
            Some(LogAction::Delete) => {
                return false;
            },
            Some(LogAction::Put) if entry.value.is_some() => {},
            Some(LogAction::Noop) => {},
            _ => {
                assert(!applies(whole[i as int]));
                return true;
            },
        }
        i = i + 1;
    }
    true
}

impl DataStore {
    /// A store without keys.
    pub fn new() -> (store: DataStore)
        ensures
            store@ == Map::<Seq<char>, Seq<char>>::empty(),
    {
        let store = DataStore { data: StringHashMap::new() };
        assert(store@ =~= Map::<Seq<char>, Seq<char>>::empty());
        store
    }

    /// Applies the log until `last_applied` has caught up with `commit_index`, and
    /// returns how many entries that took.
    ///
    /// Where an entry cannot be applied, `last_applied` stays one below its index.
    pub fn update_state_machine(
        &mut self,
        stable_data: &RaftStableData,
        volatile_data: &mut RaftVolatileData,
    ) -> (result: Result<i64, StateMachineError>)
        requires
            stable_data.log@.len() <= i64::MAX,
            can_update(
                stable_data.log@,
                old(volatile_data).last_applied as int,
                old(volatile_data).commit_index as int,
            ),
        ensures
            final(volatile_data).commit_index == old(volatile_data).commit_index,
            caught_up(
                stable_data.log@,
                old(volatile_data).commit_index as int,
                old(volatile_data).last_applied as int,
                final(volatile_data).last_applied as int,
                old(self)@,
                final(self)@,
            ),
            match result {
                Ok(count) => {
                    &&& count == final(volatile_data).last_applied - old(
                        volatile_data,
                    ).last_applied
                    &&& final(volatile_data).last_applied >= final(volatile_data).commit_index
                },
                Err(error) => {
                    &&& final(volatile_data).last_applied < final(volatile_data).commit_index
                    &&& error.is_apply_failure(
                        apply_failure(stable_data.log@[final(volatile_data).last_applied + 1]),
                    )
                },
            },
    {
        let ghost log = stable_data.log@;
        let ghost from = volatile_data.last_applied as int;
        let ghost to = volatile_data.commit_index as int;
        let mut num_updates: i64 = 0;
        while volatile_data.last_applied < volatile_data.commit_index
            invariant
                log.len() <= i64::MAX,
                log == stable_data.log@,
                to == volatile_data.commit_index == old(volatile_data).commit_index,
                from == old(volatile_data).last_applied,
                from <= volatile_data.last_applied,
                volatile_data.last_applied <= to || volatile_data.last_applied == from,
                volatile_data.last_applied > from ==> -1 <= from && volatile_data.last_applied
                    < log.len(),
                num_updates == volatile_data.last_applied - from,
                can_update(log, from, to),
                all_apply(log, from, volatile_data.last_applied + 1),
                self@ == replay(old(self)@, log, from, volatile_data.last_applied as int),
            decreases volatile_data.commit_index - volatile_data.last_applied,
        {
            let index_to_apply: i64 = volatile_data.last_applied + 1;
            assert(all_apply(log, from, index_to_apply as int));
            assert(0 <= index_to_apply < stable_data.log.len());
            let log_entry_to_apply = &stable_data.log[index_to_apply as usize];
            match self.apply_to_state_machine(log_entry_to_apply) {
                Ok(()) => {},
                Err(error) => {
                    return Err(error);
                },
            }
            volatile_data.last_applied = index_to_apply;
            num_updates = num_updates + 1;
        }
        Ok(num_updates)
    }

    /// Applies one entry.
    pub fn apply_to_state_machine(&mut self, log_entry_to_apply: &LogEntry) -> (result: Result<
        (),
        StateMachineError,
    >)
        requires
            log_entry_to_apply.action() != Some(LogAction::Delete),
        ensures
            final(self)@ == apply_entry(old(self)@, *log_entry_to_apply),
            result is Ok <==> applies(*log_entry_to_apply),
            result matches Err(error) ==> error.is_apply_failure(
                apply_failure(*log_entry_to_apply),
            ),
    {
        match LogAction::from_i32(log_entry_to_apply.log_action) {
            Some(LogAction::Put) => {
                match &log_entry_to_apply.value {
                    Some(value) => {
                        self.data.insert(value.key.clone(), value.value.clone());
                        assert(self@ =~= old(self)@.insert(value.key@, value.value@));
                        Ok(())
                    },
                    None => Err(
                        StateMachineError::FailedToApplyLogs(
                            "Failed to get log entries value".to_owned(),
                        ),
                    ),
                }
            },
            None => Err(
                StateMachineError::FailedToApplyLogs("No log action was stored".to_owned()),
            ),
            Some(_) => Ok(()),
        }
    }
}

} // verus!
