//! The supervisor's state: task store, status table and process registry.
//!
//! Each task is one record holding its definition and, while it is
//! supervised as running, the registry entry of its live instance. The status
//! table is derived from the records, so it is always in step with both the
//! store and the registry.

use crate::model::{
    env_model, running_label, running_status, stopped_label, stopped_status, ConfigModel,
    StatusModel, TaskConfig, TaskView,
};
use crate::external::{new_task_id, now_unix_seconds};
use crate::launch::{launch_for, launch_model, HostShell, LaunchSpec};
use std::collections::HashMap;
use vstd::prelude::*;

verus! {

/// The registry entry of a live instance of a task.
///
/// `instance` tells apart successive instances of one task, so that a
/// liveness monitor can recognise that the instance it watches is gone.
#[derive(Clone, Copy, Debug, PartialEq, Eq, Structural)]
pub struct RunningProcess {
    pub pid: u32,
    pub start_time: u64,
    pub instance: u64,
}

/// Why an operation on the task store failed.
#[derive(Clone, Copy, Debug, PartialEq, Eq, Structural)]
pub enum TaskError {
    /// No task has the given id.
    NotFound,
    /// A task with that id already exists.
    DuplicateId,
}

/// One task: its definition and its live instance, if any.
pub struct TaskRecord {
    pub config: TaskConfig,
    pub process: Option<RunningProcess>,
}

/// The mathematical value of a [`TaskRecord`].
pub struct RecordModel {
    pub config: ConfigModel,
    pub process: Option<RunningProcess>,
}

impl View for TaskRecord {
    type V = RecordModel;

    open spec fn view(&self) -> RecordModel {
        RecordModel { config: self.config@, process: self.process }
    }
}

/// The whole state of the supervisor.
pub struct AppState {
    records: Vec<TaskRecord>,
    next_instance: u64,
}

/// The mathematical value of an [`AppState`]: the records in the order of
/// the store, and the number that the next registered instance gets.
pub struct AppModel {
    pub records: Seq<RecordModel>,
    pub next_instance: u64,
}

impl View for AppState {
    type V = AppModel;

    closed spec fn view(&self) -> AppModel {
        AppModel {
            records: self.records@.map_values(|r: TaskRecord| r@),
            next_instance: self.next_instance,
        }
    }
}

/// Whether the store holds a task with the id `id`.
pub open spec fn has_task(recs: Seq<RecordModel>, id: Seq<char>) -> bool {
    exists|i: int| 0 <= i < recs.len() && (#[trigger] recs[i]).config.id == id
}

/// The index of the task `id`; meaningful where `has_task` holds.
pub open spec fn position_of(recs: Seq<RecordModel>, id: Seq<char>) -> int {
    choose|i: int| 0 <= i < recs.len() && (#[trigger] recs[i]).config.id == id
}

/// No two tasks share an id.
pub open spec fn ids_unique(recs: Seq<RecordModel>) -> bool {
    forall|i: int, j: int|
        0 <= i < recs.len() && 0 <= j < recs.len() && (#[trigger] recs[i]).config.id == (
        #[trigger] recs[j]).config.id ==> i == j
}

/// Whether the task `id` has an instance in the registry.
pub open spec fn is_running(recs: Seq<RecordModel>, id: Seq<char>) -> bool {
    has_task(recs, id) && recs[position_of(recs, id)].process.is_some()
}

/// The status that the status table shows for a record.
pub open spec fn status_model(rec: RecordModel) -> StatusModel {
    match rec.process {
        Some(p) => StatusModel {
            id: rec.config.id,
            status: running_label(),
            pid: Some(p.pid),
            start_time: Some(p.start_time),
        },
        None => StatusModel {
            id: rec.config.id,
            status: stopped_label(),
            pid: None,
            start_time: None,
        },
    }
}

/// What listing the tasks shows: each definition with its status.
pub open spec fn list_model(s: AppModel) -> Seq<(ConfigModel, StatusModel)> {
    s.records.map_values(|r: RecordModel| (r.config, status_model(r)))
}

/// The state after a new definition is added, stopped.
pub open spec fn insert_model(s: AppModel, c: ConfigModel) -> AppModel {
    AppModel { records: s.records.push(RecordModel { config: c, process: None }), ..s }
}

/// The state after the definition of `id` is replaced by the given fields.
pub open spec fn update_model(
    s: AppModel,
    id: Seq<char>,
    name: Seq<char>,
    command: Seq<char>,
    tag: Seq<char>,
    auto_retry: bool,
    env_vars: Option<Map<String, String>>,
) -> AppModel {
    let i = position_of(s.records, id);
    let old_rec = s.records[i];
    let config = ConfigModel { id, name, command, tag, auto_retry, env_vars };
    AppModel {
        records: s.records.update(i, RecordModel { config, process: old_rec.process }),
        ..s
    }
}

/// The state after the task `id` is removed.
pub open spec fn delete_model(s: AppModel, id: Seq<char>) -> AppModel {
    AppModel { records: s.records.remove(position_of(s.records, id)), ..s }
}

/// The state after the instance of `id`, if any, leaves the registry.
pub open spec fn stop_model(s: AppModel, id: Seq<char>) -> AppModel {
    if has_task(s.records, id) {
        let i = position_of(s.records, id);
        AppModel {
            records: s.records.update(i, RecordModel { process: None, ..s.records[i] }),
            ..s
        }
    } else {
        s
    }
}

/// The records built from a sequence of stored definitions: each task
/// starts stopped, and a later definition with an id already seen replaces
/// the earlier one in its place.
pub open spec fn loaded_model(cs: Seq<ConfigModel>) -> Seq<RecordModel>
    decreases cs.len(),
{
    if cs.len() == 0 {
        Seq::empty()
    } else {
        let prev = loaded_model(cs.drop_last());
        let c = cs.last();
        let rec = RecordModel { config: c, process: None };
        if has_task(prev, c.id) {
            prev.update(position_of(prev, c.id), rec)
        } else {
            prev.push(rec)
        }
    }
}

/// What a request to start a task calls for.
#[derive(Clone, Debug)]
pub enum StartPlan {
    /// The task already has a running instance: nothing is to be done.
    AlreadyRunning,
    /// A new instance is to be spawned as described.
    Launch(LaunchSpec),
}

/// How long a liveness monitor waits between two polls, in milliseconds.
pub const MONITOR_POLL_INTERVAL_MS: u64 = 500;

/// How long a task that exited on its own waits before it is started again,
/// in milliseconds.
pub const RESTART_COOLDOWN_MS: u64 = 2000;

/// What a liveness monitor does after one poll of its instance.
#[derive(Clone, Copy, Debug, PartialEq, Eq, Structural)]
pub enum MonitorAction {
    /// The instance is still alive: poll again after the interval.
    KeepPolling,
    /// The instance was taken out of the registry by a stop, a delete or a
    /// newer start: the monitor ends and touches nothing.
    ExitedManually,
    /// The instance exited on its own and the task does not restart.
    Idle,
    /// The instance exited on its own: after the cool-down, start the task
    /// again.
    RestartAfterCooldown,
}

/// The instance number that follows `n`.
pub open spec fn next_instance_after(n: u64) -> u64 {
    if n == u64::MAX {
        0
    } else {
        (n + 1) as u64
    }
}

/// The state after the task `id` starts running as `p`.
pub open spec fn started_model(s: AppModel, id: Seq<char>, p: RunningProcess) -> AppModel {
    let i = position_of(s.records, id);
    AppModel {
        records: s.records.update(i, RecordModel { process: Some(p), ..s.records[i] }),
        next_instance: next_instance_after(s.next_instance),
    }
}

/// Whether `instance` is the registered running instance of the task `id`.
pub open spec fn is_current(recs: Seq<RecordModel>, id: Seq<char>, instance: u64) -> bool {
    &&& has_task(recs, id)
    &&& recs[position_of(recs, id)].process.is_some()
    &&& recs[position_of(recs, id)].process.unwrap().instance == instance
}

/// What the liveness monitor of `instance` does once it polled the process.
pub open spec fn monitor_model(s: AppModel, id: Seq<char>, instance: u64, exited: bool) -> (
    AppModel,
    MonitorAction,
) {
    if !is_current(s.records, id, instance) {
        (s, MonitorAction::ExitedManually)
    } else if !exited {
        (s, MonitorAction::KeepPolling)
    } else if s.records[position_of(s.records, id)].config.auto_retry {
        (stop_model(s, id), MonitorAction::RestartAfterCooldown)
    } else {
        (stop_model(s, id), MonitorAction::Idle)
    }
}

/// Replacing a record by one with the same id keeps ids unique.
pub proof fn lemma_update_keeps_ids_unique(recs: Seq<RecordModel>, i: int, rec: RecordModel)
    requires
        ids_unique(recs),
        0 <= i < recs.len(),
        rec.config.id == recs[i].config.id,
    ensures
        ids_unique(recs.update(i, rec)),
{
    let after = recs.update(i, rec);
    assert forall|a: int, b: int|
        0 <= a < after.len() && 0 <= b < after.len() && (#[trigger] after[a]).config.id == (
        #[trigger] after[b]).config.id implies a == b by {
        assert(after[a].config.id == recs[a].config.id);
        assert(after[b].config.id == recs[b].config.id);
    }
}

proof fn lemma_loaded_all_stopped(cs: Seq<ConfigModel>)
    ensures
        forall|i: int|
            0 <= i < loaded_model(cs).len() ==> (#[trigger] loaded_model(cs)[i]).process is None,
    decreases cs.len(),
{
    if cs.len() > 0 {
        lemma_loaded_all_stopped(cs.drop_last());
    }
}

impl AppState {
    /// The invariant of the state: task ids are unique.
    pub open spec fn wf(&self) -> bool {
        ids_unique(self@.records)
    }

    /// An empty supervisor.
    pub fn empty() -> (r: AppState)
        ensures
            r.wf(),
            r@.records.len() == 0,
            r@.next_instance == 0,
    {
        let r = AppState { records: Vec::new(), next_instance: 0 };
        assert(r@.records =~= Seq::<RecordModel>::empty());
        r
    }

    proof fn lemma_view_index(&self, i: int)
        ensures
            self@.records.len() == self.records@.len(),
            0 <= i < self.records.len() ==> self@.records[i] == self.records@[i]@,
    {
    }

    /// The index of the task `id`, if there is one.
    fn find(&self, id: &str) -> (r: Option<usize>)
        requires
            self.wf(),
        ensures
            self@.records.len() == self.records@.len(),
            match r {
                Some(i) => {
                    &&& i < self.records@.len()
                    &&& has_task(self@.records, id@)
                    &&& i == position_of(self@.records, id@)
                    &&& self.records@[i as int].config.id@ == id@
                },
                None => !has_task(self@.records, id@),
            },
    {
        let key = id.to_owned();
        let ghost recs = self@.records;
        let mut i: usize = 0;
        while i < self.records.len()
            invariant
                recs == self@.records,
                ids_unique(recs),
                recs.len() == self.records@.len(),
                key@ == id@,
                i <= self.records@.len(),
                forall|j: int| 0 <= j < i ==> (#[trigger] recs[j]).config.id != id@,
            decreases self.records.len() - i,
        {
            proof {
                self.lemma_view_index(i as int);
            }
            if self.records[i].config.id == key {
                proof {
                    assert(recs[i as int].config.id == id@);
                    let k = position_of(recs, id@);
                    assert(0 <= k < recs.len() && recs[k].config.id == id@);
                    assert(recs[k].config.id == recs[i as int].config.id);
                    assert(k == i);
                }
                return Some(i);
            }
            i += 1;
        }
        proof {
            assert forall|j: int| 0 <= j < recs.len() implies (#[trigger] recs[j]).config.id
                != id@ by {}
        }
        None
    }

    /// Replaces the registry entry of the task at index `i`.
    fn set_process(&mut self, i: usize, p: Option<RunningProcess>)
        requires
            old(self).wf(),
            i < old(self)@.records.len(),
        ensures
            final(self).wf(),
            final(self)@ == (AppModel {
                records: old(self)@.records.update(
                    i as int,
                    RecordModel { process: p, ..old(self)@.records[i as int] },
                ),
                ..old(self)@
            }),
    {
        let ghost before = self@.records;
        let mut rec = self.records.remove(i);
        rec.process = p;
        self.records.insert(i, rec);
        proof {
            let rec = RecordModel { process: p, ..before[i as int] };
            assert(self@.records =~= before.update(i as int, rec));
            lemma_update_keeps_ids_unique(before, i as int, rec);
        }
    }

    /// Adds a new, stopped task.
    pub fn insert_task(&mut self, config: TaskConfig) -> (r: Result<(), TaskError>)
        requires
            old(self).wf(),
        ensures
            final(self).wf(),
            match r {
                Ok(()) => {
                    &&& !has_task(old(self)@.records, config@.id)
                    &&& final(self)@ == insert_model(old(self)@, config@)
                },
                Err(e) => {
                    &&& e == TaskError::DuplicateId
                    &&& has_task(old(self)@.records, config@.id)
                    &&& final(self)@ == old(self)@
                },
            },
    {
        match self.find(config.id.as_str()) {
            Some(_) => Err(TaskError::DuplicateId),
            None => {
                let ghost before = self@.records;
                let ghost c = config@;
                self.records.push(TaskRecord { config, process: None });
                proof {
                    let after = self@.records;
                    assert(after =~= before.push(RecordModel { config: c, process: None }));
                    assert forall|a: int, b: int|
                        0 <= a < after.len() && 0 <= b < after.len() && (#[trigger] after[a]).config.id
                            == (#[trigger] after[b]).config.id implies a == b by {
                        if a < before.len() && b == before.len() {
                            assert(before[a].config.id == c.id);
                        }
                        if b < before.len() && a == before.len() {
                            assert(before[b].config.id == c.id);
                        }
                    }
                }
                Ok(())
            },
        }
    }

    /// Whether the task `id` has a running instance.
    pub fn is_running(&self, id: &str) -> (r: bool)
        requires
            self.wf(),
        ensures
            r == is_running(self@.records, id@),
    {
        match self.find(id) {
            None => false,
            Some(i) => {
                proof {
                    self.lemma_view_index(i as int);
                }
                self.records[i].process.is_some()
            },
        }
    }

    /// Puts `rec` at index `i`, in place of a record with the same id.
    fn set_record(&mut self, i: usize, rec: TaskRecord)
        requires
            old(self).wf(),
            i < old(self)@.records.len(),
            rec@.config.id == old(self)@.records[i as int].config.id,
        ensures
            final(self).wf(),
            final(self)@ == (AppModel {
                records: old(self)@.records.update(i as int, rec@),
                ..old(self)@
            }),
    {
        let ghost before = self@.records;
        let ghost r = rec@;
        let _ = self.records.remove(i);
        self.records.insert(i, rec);
        proof {
            assert(self@.records =~= before.update(i as int, r));
            lemma_update_keeps_ids_unique(before, i as int, r);
        }
    }

    /// A supervisor over stored definitions, with every task stopped.
    pub fn new(configs: &Vec<TaskConfig>) -> (r: AppState)
        ensures
            r.wf(),
            r@.records == loaded_model(configs@.map_values(|c: TaskConfig| c@)),
            forall|i: int| 0 <= i < r@.records.len() ==> (#[trigger] r@.records[i]).process is None,
            r@.next_instance == 0,
    {
        let ghost cs = configs@.map_values(|c: TaskConfig| c@);
        let mut state = AppState::empty();
        let mut k: usize = 0;
        assert(cs.take(0) =~= Seq::<ConfigModel>::empty());
        while k < configs.len()
            invariant
                k <= configs@.len(),
                cs == configs@.map_values(|c: TaskConfig| c@),
                state.wf(),
                state@.next_instance == 0,
                state@.records == loaded_model(cs.take(k as int)),
            decreases configs.len() - k,
        {
            let config = configs[k].duplicate();
            proof {
                assert(cs.take(k as int + 1).drop_last() =~= cs.take(k as int));
                assert(cs.take(k as int + 1).last() == config@);
            }
            match state.find(config.id.as_str()) {
                Some(i) => {
                    state.set_record(i, TaskRecord { config, process: None });
                },
                None => {
                    let res = state.insert_task(config);
                    assert(res is Ok);
                },
            }
            k += 1;
        }
        assert(cs.take(configs@.len() as int) =~= cs);
        proof {
            lemma_loaded_all_stopped(cs);
        }
        state
    }

    /// The stored definitions, in the order of the store.
    pub fn configs(&self) -> (r: Vec<TaskConfig>)
        ensures
            r@.map_values(|c: TaskConfig| c@) == self@.records.map_values(
                |rec: RecordModel| rec.config,
            ),
    {
        let mut out: Vec<TaskConfig> = Vec::new();
        let mut i: usize = 0;
        while i < self.records.len()
            invariant
                i <= self.records@.len(),
                out@.len() == i,
                forall|j: int| 0 <= j < i ==> (#[trigger] out@[j])@ == self@.records[j].config,
            decreases self.records.len() - i,
        {
            proof {
                self.lemma_view_index(i as int);
            }
            out.push(self.records[i].config.duplicate());
            i += 1;
        }
        proof {
            self.lemma_view_index(0);
        }
        assert(out@.map_values(|c: TaskConfig| c@) =~= self@.records.map_values(
            |rec: RecordModel| rec.config,
        ));
        out
    }
}

/// Replaces the definition of the task `id`, keeping its id and its
/// running instance.
pub fn update_task(
    state: &mut AppState,
    id: &str,
    name: String,
    command: String,
    tag: String,
    auto_retry: bool,
    env_vars: Option<HashMap<String, String>>,
) -> (r: Result<(), TaskError>)
    requires
        old(state).wf(),
    ensures
        final(state).wf(),
        match r {
            Ok(()) => {
                &&& has_task(old(state)@.records, id@)
                &&& final(state)@ == update_model(
                    old(state)@,
                    id@,
                    name@,
                    command@,
                    tag@,
                    auto_retry,
                    env_model(env_vars),
                )
            },
            Err(e) => {
                &&& e == TaskError::NotFound
                &&& !has_task(old(state)@.records, id@)
                &&& final(state)@ == old(state)@
            },
        },
{
    match state.find(id) {
        None => Err(TaskError::NotFound),
        Some(i) => {
            proof {
                state.lemma_view_index(i as int);
            }
            let config = TaskConfig {
                id: state.records[i].config.id.clone(),
                name,
                command,
                tag,
                auto_retry,
                env_vars,
            };
            let process = state.records[i].process;
            state.set_record(i, TaskRecord { config, process });
            Ok(())
        },
    }
}

/// Removes the task `id`; tells whether it had a running instance, which
/// the caller must then terminate.
pub fn delete_task(state: &mut AppState, id: &str) -> (r: Result<bool, TaskError>)
    requires
        old(state).wf(),
    ensures
        final(state).wf(),
        match r {
            Ok(was_running) => {
                &&& has_task(old(state)@.records, id@)
                &&& was_running == is_running(old(state)@.records, id@)
                &&& final(state)@ == delete_model(old(state)@, id@)
            },
            Err(e) => {
                &&& e == TaskError::NotFound
                &&& !has_task(old(state)@.records, id@)
                &&& final(state)@ == old(state)@
            },
        },
{
    match state.find(id) {
        None => Err(TaskError::NotFound),
        Some(i) => {
            let ghost before = state@.records;
            let rec = state.records.remove(i);
            proof {
                let after = state@.records;
                assert(after =~= before.remove(i as int));
                assert forall|a: int, b: int|
                    0 <= a < after.len() && 0 <= b < after.len() && (#[trigger] after[a]).config.id
                        == (#[trigger] after[b]).config.id implies a == b by {
                    let a0 = if a < i { a } else { a + 1 };
                    let b0 = if b < i { b } else { b + 1 };
                    assert(after[a] == before[a0]);
                    assert(after[b] == before[b0]);
                }
            }
            Ok(rec.process.is_some())
        },
    }
}

/// Takes the instance of `id`, if any, out of the registry, leaving the
/// task stopped; tells whether there was one.
pub fn stop_task_internal(state: &mut AppState, id: &str) -> (was_running: bool)
    requires
        old(state).wf(),
    ensures
        final(state).wf(),
        was_running == is_running(old(state)@.records, id@),
        final(state)@ == stop_model(old(state)@, id@),
{
    match state.find(id) {
        None => false,
        Some(i) => {
            let was_running = state.records[i].process.is_some();
            proof {
                state.lemma_view_index(i as int);
            }
            state.set_process(i, None);
            was_running
        },
    }
}

/// Each task's definition with its current status, in the order of the
/// store.
pub fn get_tasks(state: &AppState) -> (r: Vec<TaskView>)
    ensures
        r@.map_values(|v: TaskView| v@) == list_model(state@),
{
    let mut out: Vec<TaskView> = Vec::new();
    let mut i: usize = 0;
    while i < state.records.len()
        invariant
            i <= state.records@.len(),
            out@.len() == i,
            forall|j: int|
                0 <= j < i ==> (#[trigger] out@[j])@ == (
                state@.records[j].config,
                status_model(state@.records[j]),
            ),
        decreases state.records.len() - i,
    {
        proof {
            state.lemma_view_index(i as int);
        }
        let rec = &state.records[i];
        let config = rec.config.duplicate();
        let status = match rec.process {
            Some(p) => running_status(rec.config.id.clone(), p.pid, p.start_time),
            None => stopped_status(rec.config.id.clone()),
        };
        out.push(TaskView { config, status });
        i += 1;
    }
    proof {
        state.lemma_view_index(0);
    }
    assert(out@.map_values(|v: TaskView| v@) =~= list_model(state@));
    out
}

/// Creates a task from the given fields under a fresh random id, stopped, and
/// returns the id.
pub fn create_task(
    state: &mut AppState,
    name: String,
    command: String,
    tag: String,
    auto_retry: bool,
    env_vars: Option<HashMap<String, String>>,
) -> (r: Result<String, TaskError>)
    requires
        old(state).wf(),
    ensures
        final(state).wf(),
        match r {
            Ok(id) => {
                let c = ConfigModel {
                    id: id@,
                    name: name@,
                    command: command@,
                    tag: tag@,
                    auto_retry,
                    env_vars: env_model(env_vars),
                };
                &&& id@.len() == 36
                &&& !has_task(old(state)@.records, id@)
                &&& final(state)@ == insert_model(old(state)@, c)
            },
            Err(e) => {
                &&& e == TaskError::DuplicateId
                &&& final(state)@ == old(state)@
                &&& exists|i: int|
                    0 <= i < old(state)@.records.len() && (#[trigger] old(
                        state,
                    )@.records[i]).config.id.len() == 36
            },
        },
{
    let id = new_task_id();
    let config = TaskConfig { id: id.clone(), name, command, tag, auto_retry, env_vars };
    match state.insert_task(config) {
        Ok(()) => Ok(id),
        Err(e) => Err(e),
    }
}

/// Decides what starting the task `id` takes: nothing if it already runs,
/// otherwise the launch of its command through the host's interpreter.
pub fn start_task(state: &AppState, id: &str, shell: HostShell) -> (r: Result<StartPlan, TaskError>)
    requires
        state.wf(),
    ensures
        match r {
            Err(e) => e == TaskError::NotFound && !has_task(state@.records, id@),
            Ok(StartPlan::AlreadyRunning) => is_running(state@.records, id@),
            Ok(StartPlan::Launch(l)) => {
                &&& has_task(state@.records, id@)
                &&& !is_running(state@.records, id@)
                &&& l@ == launch_model(state@.records[position_of(state@.records, id@)].config, shell)
            },
        },
{
    match state.find(id) {
        None => Err(TaskError::NotFound),
        Some(i) => {
            proof {
                state.lemma_view_index(i as int);
            }
            if state.records[i].process.is_some() {
                Ok(StartPlan::AlreadyRunning)
            } else {
                Ok(StartPlan::Launch(launch_for(&state.records[i].config, shell)))
            }
        },
    }
}

/// The start time recorded for a clock reading: the reading itself, or the
/// epoch where the clock could not be read as seconds since the epoch.
pub open spec fn start_time_of(clock: Option<u64>) -> u64 {
    match clock {
        Some(t) => t,
        None => 0,
    }
}

/// Registers a freshly spawned instance of the task `id`, running as `pid`
/// since the time that `clock` read (see [`start_time_of`]). Returns the registry entry, or `None` where the task
/// already had a running instance; then nothing changes and the new process
/// is not supervised.
pub fn record_start(state: &mut AppState, id: &str, pid: u32, clock: Option<u64>) -> (r: Result<
    Option<RunningProcess>,
    TaskError,
>)
    requires
        old(state).wf(),
    ensures
        final(state).wf(),
        match r {
            Err(e) => {
                &&& e == TaskError::NotFound
                &&& !has_task(old(state)@.records, id@)
                &&& final(state)@ == old(state)@
            },
            Ok(None) => is_running(old(state)@.records, id@) && final(state)@ == old(state)@,
            Ok(Some(p)) => {
                &&& has_task(old(state)@.records, id@)
                &&& !is_running(old(state)@.records, id@)
                &&& p == RunningProcess {
                    pid,
                    start_time: start_time_of(clock),
                    instance: old(state)@.next_instance,
                }
                &&& final(state)@ == started_model(old(state)@, id@, p)
            },
        },
{
    match state.find(id) {
        None => Err(TaskError::NotFound),
        Some(i) => {
            proof {
                state.lemma_view_index(i as int);
            }
            if state.records[i].process.is_some() {
                Ok(None)
            } else {
                let start_time = match clock {
                    Some(t) => t,
                    None => 0,
                };
                let p = RunningProcess { pid, start_time, instance: state.next_instance };
                state.set_process(i, Some(p));
                state.next_instance = if state.next_instance == u64::MAX {
                    0
                } else {
                    state.next_instance + 1
                };
                Ok(Some(p))
            }
        },
    }
}

/// Registers a freshly spawned instance of the task `id`, running as `pid`,
/// stamped with the host clock; as [`record_start`] for whatever reading the
/// clock gave.
pub fn mark_started(state: &mut AppState, id: &str, pid: u32) -> (r: Result<
    Option<RunningProcess>,
    TaskError,
>)
    requires
        old(state).wf(),
    ensures
        final(state).wf(),
        match r {
            Err(e) => {
                &&& e == TaskError::NotFound
                &&& !has_task(old(state)@.records, id@)
                &&& final(state)@ == old(state)@
            },
            Ok(None) => is_running(old(state)@.records, id@) && final(state)@ == old(state)@,
            Ok(Some(p)) => {
                &&& has_task(old(state)@.records, id@)
                &&& !is_running(old(state)@.records, id@)
                &&& p.pid == pid
                &&& p.instance == old(state)@.next_instance
                &&& final(state)@ == started_model(old(state)@, id@, p)
            },
        },
{
    let clock = now_unix_seconds();
    record_start(state, id, pid, clock)
}

/// One step of the liveness monitor of `instance` of the task `id`, once
/// it has polled whether the process `exited`.
///
/// An instance that is no longer the registered one was stopped on request:
/// the monitor ends without touching anything. Otherwise an exit takes the
/// instance out of the registry, and the task's current `auto_retry` decides
/// whether it is started again after the cool-down.
pub fn monitor_step(state: &mut AppState, id: &str, instance: u64, exited: bool) -> (r:
    MonitorAction)
    requires
        old(state).wf(),
    ensures
        final(state).wf(),
        (final(state)@, r) == monitor_model(old(state)@, id@, instance, exited),
{
    match state.find(id) {
        None => MonitorAction::ExitedManually,
        Some(i) => {
            proof {
                state.lemma_view_index(i as int);
            }
            let current = match state.records[i].process {
                Some(p) => p.instance == instance,
                None => false,
            };
            if !current {
                MonitorAction::ExitedManually
            } else if !exited {
                MonitorAction::KeepPolling
            } else {
                let auto_retry = state.records[i].config.auto_retry;
                state.set_process(i, None);
                if auto_retry {
                    MonitorAction::RestartAfterCooldown
                } else {
                    MonitorAction::Idle
                }
            }
        },
    }
}

} // verus!
