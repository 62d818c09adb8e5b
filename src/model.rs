//! Task definitions and their derived runtime status.

use std::collections::HashMap;
use vstd::prelude::*;

verus! {

/// A task definition: a named shell command with its restart policy.
#[derive(Clone, Debug)]
pub struct TaskConfig {
    pub id: String,
    pub name: String,
    pub command: String,
    pub tag: String,
    pub auto_retry: bool,
    pub env_vars: Option<HashMap<String, String>>,
}

/// The mathematical value of a [`TaskConfig`].
pub struct ConfigModel {
    pub id: Seq<char>,
    pub name: Seq<char>,
    pub command: Seq<char>,
    pub tag: Seq<char>,
    pub auto_retry: bool,
    pub env_vars: Option<Map<String, String>>,
}

pub open spec fn env_model(env: Option<HashMap<String, String>>) -> Option<Map<String, String>> {
    match env {
        Some(m) => Some(m@),
        None => None,
    }
}

impl View for TaskConfig {
    type V = ConfigModel;

    open spec fn view(&self) -> ConfigModel {
        ConfigModel {
            id: self.id@,
            name: self.name@,
            command: self.command@,
            tag: self.tag@,
            auto_retry: self.auto_retry,
            env_vars: env_model(self.env_vars),
        }
    }
}

/// Copies an optional environment mapping.
pub fn copy_env(env: &Option<HashMap<String, String>>) -> (r: Option<HashMap<String, String>>)
    ensures
        env_model(r) == env_model(*env),
{
    match env {
        Some(m) => Some(m.clone()),
        None => None,
    }
}

impl TaskConfig {
    /// A copy of this definition with the same value.
    pub fn duplicate(&self) -> (r: TaskConfig)
        ensures
            r@ == self@,
    {
        TaskConfig {
            id: self.id.clone(),
            name: self.name.clone(),
            command: self.command.clone(),
            tag: self.tag.clone(),
            auto_retry: self.auto_retry,
            env_vars: copy_env(&self.env_vars),
        }
    }
}

/// The label of a task that has no running instance.
pub open spec fn stopped_label() -> Seq<char> {
    seq!['s', 't', 'o', 'p', 'p', 'e', 'd']
}

/// The label of a task that has a running instance.
pub open spec fn running_label() -> Seq<char> {
    seq!['r', 'u', 'n', 'n', 'i', 'n', 'g']
}

/// The runtime status of one task, derived from the registry.
#[derive(Clone, Debug, PartialEq, Eq)]
pub struct TaskStatus {
    pub id: String,
    pub status: String,
    pub pid: Option<u32>,
    pub start_time: Option<u64>,
}

/// The mathematical value of a [`TaskStatus`].
pub struct StatusModel {
    pub id: Seq<char>,
    pub status: Seq<char>,
    pub pid: Option<u32>,
    pub start_time: Option<u64>,
}

impl View for TaskStatus {
    type V = StatusModel;

    open spec fn view(&self) -> StatusModel {
        StatusModel {
            id: self.id@,
            status: self.status@,
            pid: self.pid,
            start_time: self.start_time,
        }
    }
}

/// The status of a task that is not running.
pub fn stopped_status(id: String) -> (r: TaskStatus)
    ensures
        r@ == (StatusModel { id: id@, status: stopped_label(), pid: None, start_time: None }),
{
    let status = "stopped".to_string();
    proof {
        reveal_strlit("stopped");
    }
    assert(status@ =~= stopped_label());
    TaskStatus { id, status, pid: None, start_time: None }
}

/// The status of a task whose instance runs as `pid` since `start_time`.
pub fn running_status(id: String, pid: u32, start_time: u64) -> (r: TaskStatus)
    ensures
        r@ == (StatusModel {
            id: id@,
            status: running_label(),
            pid: Some(pid),
            start_time: Some(start_time),
        }),
{
    let status = "running".to_string();
    proof {
        reveal_strlit("running");
    }
    assert(status@ =~= running_label());
    TaskStatus { id, status, pid: Some(pid), start_time: Some(start_time) }
}

/// A task definition together with its current status.
#[derive(Clone, Debug)]
pub struct TaskView {
    pub config: TaskConfig,
    pub status: TaskStatus,
}

impl View for TaskView {
    type V = (ConfigModel, StatusModel);

    open spec fn view(&self) -> (ConfigModel, StatusModel) {
        (self.config@, self.status@)
    }
}

} // verus!
