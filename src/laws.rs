//! Properties of the supervisor that relate several of its operations.

use crate::model::{stopped_label, ConfigModel, StatusModel};
use crate::output::{log_tail, LOG_HISTORY_LIMIT};
use crate::state::{
    delete_model, has_task, ids_unique, insert_model, is_current, is_running, list_model,
    monitor_model, position_of, started_model, status_model, stop_model, AppModel, MonitorAction,
    lemma_update_keeps_ids_unique, RecordModel, RunningProcess,
};
use vstd::prelude::*;

verus! {

proof fn lemma_position(recs: Seq<RecordModel>, id: Seq<char>, i: int)
    requires
        ids_unique(recs),
        0 <= i < recs.len(),
        recs[i].config.id == id,
    ensures
        has_task(recs, id),
        position_of(recs, id) == i,
{
    let k = position_of(recs, id);
    assert(recs[k].config.id == recs[i].config.id);
}

/// A newly created task is listed exactly once, stopped, with neither pid nor
/// start time.
pub proof fn created_task_is_listed_once_stopped(s: AppModel, c: ConfigModel)
    requires
        ids_unique(s.records),
        !has_task(s.records, c.id),
    ensures
        ({
            let l = list_model(insert_model(s, c));
            &&& exists|i: int|
                0 <= i < l.len() && (#[trigger] l[i]).0 == c && l[i].1 == (StatusModel {
                    id: c.id,
                    status: stopped_label(),
                    pid: None,
                    start_time: None,
                })
            &&& forall|i: int, j: int|
                0 <= i < l.len() && 0 <= j < l.len() && (#[trigger] l[i]).0.id == c.id && (
                #[trigger] l[j]).0.id == c.id ==> i == j
        }),
{
    let s1 = insert_model(s, c);
    let l = list_model(s1);
    let n = s.records.len() as int;
    assert(l[n].0 == c);
    assert forall|i: int, j: int|
        0 <= i < l.len() && 0 <= j < l.len() && (#[trigger] l[i]).0.id == c.id && (
        #[trigger] l[j]).0.id == c.id implies i == j by {
        if i < n {
            assert(s.records[i].config.id == c.id);
        }
        if j < n {
            assert(s.records[j].config.id == c.id);
        }
    }
}

/// Once a start has registered an instance, the task runs with exactly that
/// one instance, so a second start finds it running and changes nothing.
pub proof fn start_is_idempotent(s: AppModel, id: Seq<char>, p: RunningProcess)
    requires
        ids_unique(s.records),
        has_task(s.records, id),
        !is_running(s.records, id),
    ensures
        ({
            let s1 = started_model(s, id, p);
            &&& ids_unique(s1.records)
            &&& is_running(s1.records, id)
            &&& s1.records[position_of(s1.records, id)].process == Some(p)
            &&& forall|i: int|
                0 <= i < s1.records.len() && (#[trigger] s1.records[i]).config.id == id ==> i
                    == position_of(s1.records, id)
        }),
{
    let s1 = started_model(s, id, p);
    let k = position_of(s.records, id);
    assert(s1.records[k].config.id == id);
    lemma_update_keeps_ids_unique(s.records, k, s1.records[k]);
    lemma_position(s1.records, id, k);
}

/// After a stop, the exit of any instance of the task, observed by its
/// monitor, is taken as a manual stop: nothing changes and nothing restarts.
pub proof fn stopped_task_is_not_restarted(
    s: AppModel,
    id: Seq<char>,
    instance: u64,
    exited: bool,
)
    requires
        ids_unique(s.records),
    ensures
        ({
            let s1 = stop_model(s, id);
            monitor_model(s1, id, instance, exited) == (s1, MonitorAction::ExitedManually)
        }),
{
    let s1 = stop_model(s, id);
    if has_task(s.records, id) {
        let k = position_of(s.records, id);
        assert(s1.records[k].config.id == id);
        lemma_update_keeps_ids_unique(s.records, k, s1.records[k]);
        lemma_position(s1.records, id, k);
    }
}

/// An instance that exits on its own while registered leaves its task
/// stopped. With `auto_retry` the monitor asks for a restart, the next start
/// launches a new instance, and that instance is again the registered one
/// for its monitor, with `auto_retry` unchanged, so the cycle repeats.
pub proof fn exit_with_auto_retry_restarts(
    s: AppModel,
    id: Seq<char>,
    instance: u64,
    next: RunningProcess,
)
    requires
        ids_unique(s.records),
        is_current(s.records, id, instance),
        s.records[position_of(s.records, id)].config.auto_retry,
    ensures
        ({
            let (s1, action) = monitor_model(s, id, instance, true);
            let s2 = started_model(s1, id, next);
            &&& action == MonitorAction::RestartAfterCooldown
            &&& has_task(s1.records, id)
            &&& !is_running(s1.records, id)
            &&& status_model(s1.records[position_of(s1.records, id)]).status == stopped_label()
            &&& is_current(s2.records, id, next.instance)
            &&& s2.records[position_of(s2.records, id)].config.auto_retry
        }),
{
    let k = position_of(s.records, id);
    stopped_task_is_not_restarted(s, id, instance, true);
    let s1 = stop_model(s, id);
    assert(s1.records[k].config.id == id);
    lemma_position(s1.records, id, k);
    start_is_idempotent(s1, id, next);
    let s2 = started_model(s1, id, next);
    assert(s2.records[k].config.id == id);
    lemma_position(s2.records, id, k);
}

/// An instance that exits on its own while registered, of a task without
/// `auto_retry`, leaves the task stopped and its monitor idle.
pub proof fn exit_without_auto_retry_stays_stopped(s: AppModel, id: Seq<char>, instance: u64)
    requires
        ids_unique(s.records),
        is_current(s.records, id, instance),
        !s.records[position_of(s.records, id)].config.auto_retry,
    ensures
        ({
            let (s1, action) = monitor_model(s, id, instance, true);
            &&& action == MonitorAction::Idle
            &&& has_task(s1.records, id)
            &&& !is_running(s1.records, id)
            &&& status_model(s1.records[position_of(s1.records, id)]).status == stopped_label()
        }),
{
    let k = position_of(s.records, id);
    stopped_task_is_not_restarted(s, id, instance, true);
    let s1 = stop_model(s, id);
    assert(s1.records[k].config.id == id);
    lemma_position(s1.records, id, k);
}

/// A deleted task is gone from the listing, cannot be started, and no monitor
/// of any of its instances restarts it.
pub proof fn deleted_task_is_gone(s: AppModel, id: Seq<char>, instance: u64, exited: bool)
    requires
        ids_unique(s.records),
        has_task(s.records, id),
    ensures
        ({
            let s1 = delete_model(s, id);
            let l = list_model(s1);
            &&& !has_task(s1.records, id)
            &&& forall|i: int| 0 <= i < l.len() ==> (#[trigger] l[i]).0.id != id
            &&& monitor_model(s1, id, instance, exited) == (s1, MonitorAction::ExitedManually)
        }),
{
    let s1 = delete_model(s, id);
    let k = position_of(s.records, id);
    assert forall|i: int| 0 <= i < s1.records.len() implies (#[trigger] s1.records[i]).config.id
        != id by {
        let i0 = if i < k { i } else { i + 1 };
        assert(s1.records[i] == s.records[i0]);
    }
    let l = list_model(s1);
    assert forall|i: int| 0 <= i < l.len() implies (#[trigger] l[i]).0.id != id by {
        assert(l[i].0 == s1.records[i].config);
    }
}

/// Output appended to a log, up to the size of the history, shows in the
/// history, last and in order.
pub proof fn recent_output_is_in_history(log: Seq<u8>, recent: Seq<u8>)
    requires
        recent.len() <= LOG_HISTORY_LIMIT,
    ensures
        ({
            let h = log_tail(log + recent);
            &&& recent.len() <= h.len()
            &&& h.subrange(h.len() - recent.len(), h.len() as int) == recent
        }),
{
    let h = log_tail(log + recent);
    assert(h.subrange(h.len() - recent.len(), h.len() as int) =~= recent);
}

/// The history of a log larger than its limit is exactly the trailing
/// [`LOG_HISTORY_LIMIT`] bytes of it.
pub proof fn long_log_history_is_trailing_window(log: Seq<u8>)
    requires
        log.len() > LOG_HISTORY_LIMIT,
    ensures
        log_tail(log).len() == LOG_HISTORY_LIMIT,
        log.subrange(0, log.len() - LOG_HISTORY_LIMIT) + log_tail(log) == log,
{
    assert(log.subrange(0, log.len() - LOG_HISTORY_LIMIT) + log_tail(log) =~= log);
}

/// The log that `runs` runs leave when each writes `out` and nothing else.
pub open spec fn repeated_output(out: Seq<u8>, runs: nat) -> Seq<u8>
    decreases runs,
{
    if runs == 0 {
        Seq::empty()
    } else {
        repeated_output(out, (runs - 1) as nat) + out
    }
}

/// A task whose every run writes `out` grows its log by `out` once per run,
/// and while that log fits in the history the history shows all of it.
pub proof fn log_grows_once_per_run(out: Seq<u8>, runs: nat)
    requires
        runs * out.len() <= LOG_HISTORY_LIMIT,
    ensures
        repeated_output(out, runs).len() == runs * out.len(),
        log_tail(repeated_output(out, runs)) == repeated_output(out, runs),
        runs > 0 ==> repeated_output(out, runs) == repeated_output(out, (runs - 1) as nat) + out,
    decreases runs,
{
    if runs > 0 {
        let r = (runs - 1) as nat;
        assert(r * out.len() + out.len() == runs * out.len()) by (nonlinear_arith)
            requires
                r + 1 == runs,
        ;
        assert(r * out.len() <= runs * out.len()) by (nonlinear_arith)
            requires
                r + 1 == runs,
        ;
        log_grows_once_per_run(out, r);
    } else {
        assert(runs * out.len() == 0) by (nonlinear_arith)
            requires
                runs == 0,
        ;
    }
}

/// Chunks appended to a log one after the other, in the order they were
/// read, end the log in that order; while they fit in the history, the
/// history ends with all of them, in that order.
pub proof fn output_chunks_stay_in_order(log: Seq<u8>, chunks: Seq<Seq<u8>>)
    requires
        chunks.len() > 0,
        chunks.flatten().len() <= LOG_HISTORY_LIMIT,
    ensures
        log + chunks.flatten() == (log + chunks.drop_last().flatten()) + chunks.last(),
        ({
            let h = log_tail(log + chunks.flatten());
            &&& chunks.flatten().len() <= h.len()
            &&& h.subrange(h.len() - chunks.flatten().len(), h.len() as int) == chunks.flatten()
        }),
{
    chunks.lemma_flatten_and_flatten_alt_are_equivalent();
    chunks.drop_last().lemma_flatten_and_flatten_alt_are_equivalent();
    assert(chunks.flatten_alt() == chunks.drop_last().flatten_alt() + chunks.last());
    assert(log + chunks.flatten() =~= (log + chunks.drop_last().flatten()) + chunks.last());
    recent_output_is_in_history(log, chunks.flatten());
}

} // verus!
