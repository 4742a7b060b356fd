//! What holds of the data that a node builds from its log, and of what is read from it.

use vstd::prelude::*;

use crate::messages::{action_of_code, LogAction, LogEntry, Value};
use crate::raft::data_store::{
    all_apply, applies, apply_entry, apply_failure, can_update, caught_up, replay, DataStore,
};
use crate::raft::node::Database;
use crate::raft::read_write::{found, pairs};
use crate::text::texts;

verus! {

/// The actions have the numbers zero, one and two on the wire, and no other number stands for one.
pub proof fn law_actions_have_their_numbers(code: int)
    ensures
        action_of_code(code) == Some(LogAction::Put) <==> code == 0,
        action_of_code(code) == Some(LogAction::Delete) <==> code == 1,
        action_of_code(code) == Some(LogAction::Noop) <==> code == 2,
        action_of_code(code) is None <==> code < 0 || code > 2,
{
}

/// A put can be applied where it has a value, and then stores that value under its key. The other
/// keys stay.
pub proof fn law_puts_store_their_value(
    data: Map<Seq<char>, Seq<char>>,
    entry: LogEntry,
    other: Seq<char>,
)
    requires
        entry.log_action == 0,
        entry.value is Some,
        other != entry.value->0.key@,
    ensures
        applies(entry),
        apply_entry(data, entry).contains_key(entry.value->0.key@),
        apply_entry(data, entry)[entry.value->0.key@] == entry.value->0.value@,
        apply_entry(data, entry).contains_key(other) == data.contains_key(other),
        data.contains_key(other) ==> apply_entry(data, entry)[other] == data[other],
{
}

/// A heartbeat can be applied and changes nothing, whatever it carries.
pub proof fn law_heartbeats_store_nothing(data: Map<Seq<char>, Seq<char>>, entry: LogEntry)
    requires
        entry.log_action == 2,
    ensures
        applies(entry),
        apply_entry(data, entry) == data,
{
}

/// No other entry can be applied, and none changes anything. The error tells entries without an action
/// from those that miss their value.
pub proof fn law_other_entries_do_not_apply(data: Map<Seq<char>, Seq<char>>, entry: LogEntry)
    requires
        entry.log_action != 2,
        entry.log_action != 0 || entry.value is None,
    ensures
        !applies(entry),
        apply_entry(data, entry) == data,
        entry.log_action < 0 || entry.log_action > 2 ==> apply_failure(entry)
            == "No log action was stored"@,
        0 <= entry.log_action <= 2 ==> apply_failure(entry) == "Failed to get log entries value"@,
{
}

/// Applying nothing changes nothing.
pub proof fn law_nothing_applied_nothing_changed(
    data: Map<Seq<char>, Seq<char>>,
    log: Seq<LogEntry>,
    from: int,
    to: int,
)
    requires
        to <= from,
    ensures
        replay(data, log, from, to) == data,
{
}

/// Of several puts on a key, the last that is applied decides.
pub proof fn law_the_last_put_decides(
    data: Map<Seq<char>, Seq<char>>,
    log: Seq<LogEntry>,
    from: int,
    put: int,
    to: int,
)
    requires
        from < put <= to,
        log[put].log_action == 0,
        log[put].value is Some,
        forall|i: int|
            put < i <= to && (#[trigger] log[i]).log_action == 0 && log[i].value is Some
                ==> log[i].value->0.key@ != log[put].value->0.key@,
    ensures
        replay(data, log, from, to).contains_key(log[put].value->0.key@),
        replay(data, log, from, to)[log[put].value->0.key@] == log[put].value->0.value@,
    decreases to - put,
{
    if put < to {
        law_the_last_put_decides(data, log, from, put, to - 1);
        assert(log[to].log_action == 0 && log[to].value is Some ==> log[to].value->0.key@
            != log[put].value->0.key@);
    }
}

/// A key that no applied entry puts stays as it was, there or not.
pub proof fn law_keys_without_puts_stay(
    data: Map<Seq<char>, Seq<char>>,
    log: Seq<LogEntry>,
    from: int,
    to: int,
    key: Seq<char>,
)
    requires
        forall|i: int|
            from < i <= to && (#[trigger] log[i]).log_action == 0 && log[i].value is Some
                ==> log[i].value->0.key@ != key,
    ensures
        replay(data, log, from, to).contains_key(key) == data.contains_key(key),
        data.contains_key(key) ==> replay(data, log, from, to)[key] == data[key],
    decreases to - from,
{
    if from < to {
        law_keys_without_puts_stay(data, log, from, to - 1, key);
        assert(log[to].log_action == 0 && log[to].value is Some ==> log[to].value->0.key@ != key);
    }
}

/// Catching up goes on to the commit index and never past it. It stops before that only in front of
/// an entry that is neither a heartbeat nor a put with a value, and passes over none.
pub proof fn law_catching_up_stops_in_time(
    log: Seq<LogEntry>,
    commit_index: int,
    from: int,
    applied: int,
    before: Map<Seq<char>, Seq<char>>,
    after: Map<Seq<char>, Seq<char>>,
)
    requires
        caught_up(log, commit_index, from, applied, before, after),
    ensures
        from <= applied,
        commit_index <= from ==> applied == from,
        from < commit_index ==> applied <= commit_index,
        applied < commit_index ==> log[applied + 1].log_action != 2 && (log[applied + 1].log_action
            != 0 || log[applied + 1].value is None),
        forall|i: int|
            from < i <= applied ==> (#[trigger] log[i]).log_action == 2 || (log[i].log_action == 0
                && log[i].value is Some),
{
    assert forall|i: int| from < i <= applied implies (#[trigger] log[i]).log_action == 2 || (
    log[i].log_action == 0 && log[i].value is Some) by {
        assert(applies(log[i]));
    }
}

/// After catching up, a key has the value of the last put on it that was applied.
pub proof fn law_catching_up_stores_puts(
    log: Seq<LogEntry>,
    commit_index: int,
    from: int,
    put: int,
    applied: int,
    before: Map<Seq<char>, Seq<char>>,
    after: Map<Seq<char>, Seq<char>>,
)
    requires
        caught_up(log, commit_index, from, applied, before, after),
        from < put <= applied,
        log[put].log_action == 0,
        forall|i: int|
            put < i <= applied && (#[trigger] log[i]).log_action == 0 ==> log[i].value->0.key@
                != log[put].value->0.key@,
    ensures
        log[put].value is Some,
        after.contains_key(log[put].value->0.key@),
        after[log[put].value->0.key@] == log[put].value->0.value@,
{
    law_catching_up_stops_in_time(log, commit_index, from, applied, before, after);
    assert(log[put].log_action == 0);
    law_the_last_put_decides(before, log, from, put, applied);
}

/// After catching up, a key that no applied entry puts is as it was.
pub proof fn law_catching_up_keeps_the_rest(
    log: Seq<LogEntry>,
    commit_index: int,
    from: int,
    applied: int,
    before: Map<Seq<char>, Seq<char>>,
    after: Map<Seq<char>, Seq<char>>,
    key: Seq<char>,
)
    requires
        caught_up(log, commit_index, from, applied, before, after),
        forall|i: int|
            from < i <= applied && (#[trigger] log[i]).log_action == 0 ==> log[i].value->0.key@
                != key,
    ensures
        after.contains_key(key) == before.contains_key(key),
        before.contains_key(key) ==> after[key] == before[key],
{
    law_keys_without_puts_stay(before, log, from, applied, key);
}

/// A log can be applied as far as the commit index exactly if, of the entries behind the applied ones,
/// the first that is neither a heartbeat nor a put with a value is no delete, and the log does not end
/// before it or before the commit index.
pub proof fn law_what_can_be_applied(log: Seq<LogEntry>, from: int, to: int)
    ensures
        can_update(log, from, to) <==> forall|i: int|
            from < i <= to && (forall|j: int|
                from < j < i ==> (#[trigger] log[j]).log_action == 2 || (log[j].log_action == 0
                    && log[j].value is Some)) ==> 0 <= i < log.len() && (
            #[trigger] log[i]).log_action != 1,
{
    assert forall|i: int|
        #[trigger] all_apply(log, from, i) <==> forall|j: int|
            from < j < i ==> (#[trigger] log[j]).log_action == 2 || (log[j].log_action == 0
                && log[j].value is Some) by {
        if all_apply(log, from, i) {
            assert forall|j: int| from < j < i implies (#[trigger] log[j]).log_action == 2 || (
            log[j].log_action == 0 && log[j].value is Some) by {
                assert(applies(log[j]));
            }
        }
    }
    let raw = forall|i: int|
        from < i <= to && (forall|j: int|
            from < j < i ==> (#[trigger] log[j]).log_action == 2 || (log[j].log_action == 0
                && log[j].value is Some)) ==> 0 <= i < log.len() && (
        #[trigger] log[i]).log_action != 1;
    if can_update(log, from, to) {
        assert forall|i: int|
            from < i <= to && (forall|j: int|
                from < j < i ==> (#[trigger] log[j]).log_action == 2 || (log[j].log_action == 0
                    && log[j].value is Some)) implies 0 <= i < log.len() && (
        #[trigger] log[i]).log_action != 1 by {
            assert(all_apply(log, from, i));
        }
    }
    if raw {
        assert forall|i: int|
            from < i <= to && #[trigger] all_apply(log, from, i) implies 0 <= i < log.len()
            && log[i].action() != Some(LogAction::Delete) by {
            assert(log[i].log_action != 1);
        }
    }
}

/// The keys and values of a store are those of its table.
pub proof fn law_stores_hold_their_table(store: DataStore, key: Seq<char>)
    ensures
        store@.contains_key(key) == store.data@.contains_key(key),
        store.data@.contains_key(key) ==> store@[key] == store.data@[key]@,
{
}

/// A read gives the keys that exist, in the order in which they were asked for and as often, each
/// with its value.
pub proof fn law_reads_are_in_order(data: Map<Seq<char>, Seq<char>>, keys: Seq<Seq<char>>)
    ensures
        found(data, keys) == keys.filter(|key: Seq<char>| data.contains_key(key)).map_values(
            |key: Seq<char>| (key, data[key]),
        ),
    decreases keys.len(),
{
    reveal(Seq::filter);
    let exists_in = |key: Seq<char>| data.contains_key(key);
    let with_value = |key: Seq<char>| (key, data[key]);
    if keys.len() > 0 {
        law_reads_are_in_order(data, keys.drop_last());
        let before = keys.drop_last().filter(exists_in);
        assert(before.push(keys.last()).map_values(with_value) =~= before.map_values(
            with_value,
        ).push(with_value(keys.last())));
    }
    assert(found(data, keys) =~= keys.filter(exists_in).map_values(with_value));
}

/// The values in the answer to a read are those of the asked keys that exist, in their order. Each
/// comes under its key with what is stored there.
pub proof fn law_answers_hold_what_is_stored(
    data: Map<Seq<char>, Seq<char>>,
    keys: Seq<String>,
    values: Seq<Value>,
)
    requires
        pairs(values) == found(data, texts(keys)),
    ensures
        values.map_values(|value: Value| value.key@) == keys.map_values(
            |key: String| key@,
        ).filter(|key: Seq<char>| data.contains_key(key)),
        forall|i: int|
            0 <= i < values.len() ==> data.contains_key((#[trigger] values[i]).key@)
                && values[i].value@ == data[values[i].key@],
{
    law_reads_are_in_order(data, texts(keys));
    let exists_in = |key: Seq<char>| data.contains_key(key);
    let asked = texts(keys).filter(exists_in);
    assert(texts(keys) =~= keys.map_values(|key: String| key@));
    assert(values.len() == pairs(values).len());
    assert forall|i: int| 0 <= i < values.len() implies data.contains_key(
        (#[trigger] values[i]).key@,
    ) && values[i].value@ == data[values[i].key@] && values[i].key@ == asked[i] by {
        assert(pairs(values)[i] == (values[i].key@, values[i].value@));
        assert(pairs(values)[i] == (asked[i], data[asked[i]]));
        texts(keys).lemma_filter_pred(exists_in, i);
    }
    assert(values.map_values(|value: Value| value.key@) =~= asked);
}

/// A node that is sound serves, under each key, the value of the last put on that key in the part of
/// its log that is applied, and nothing under a key without one. It has applied nothing that is not
/// committed and committed nothing that is not in its log.
pub proof fn law_sound_nodes_serve_their_log<C>(node: Database<C>, key: Seq<char>)
    requires
        node.sound(),
    ensures
        ({
            let log = node.state.raft_data.log@;
            let applied = node.volatile_state.raft_data.last_applied;
            &&& 0 <= applied <= node.volatile_state.raft_data.commit_index < log.len()
            &&& forall|put: int|
                0 < put <= applied && (#[trigger] log[put]).log_action == 0
                    && log[put].value->0.key@ == key && (forall|i: int|
                    put < i <= applied && (#[trigger] log[i]).log_action == 0
                        ==> log[i].value->0.key@ != key) ==> node.data_store@.contains_key(key)
                    && node.data_store@[key] == log[put].value->0.value@
            &&& (forall|i: int|
                0 < i <= applied && (#[trigger] log[i]).log_action == 0 ==> log[i].value->0.key@
                    != key) ==> !node.data_store@.contains_key(key)
        }),
{
    let log = node.state.raft_data.log@;
    let applied = node.volatile_state.raft_data.last_applied as int;
    let none = Map::<Seq<char>, Seq<char>>::empty();
    assert forall|put: int|
        0 < put <= applied && (#[trigger] log[put]).log_action == 0 && log[put].value->0.key@
            == key && (forall|i: int|
            put < i <= applied && (#[trigger] log[i]).log_action == 0 ==> log[i].value->0.key@
                != key) implies node.data_store@.contains_key(key) && node.data_store@[key]
        == log[put].value->0.value@ by {
        assert(applies(log[put]));
        law_the_last_put_decides(none, log, 0, put, applied);
    }
    if forall|i: int|
        0 < i <= applied && (#[trigger] log[i]).log_action == 0 ==> log[i].value->0.key@ != key {
        law_keys_without_puts_stay(none, log, 0, applied, key);
    }
}

} // verus!
