use std::collections::HashMap;
use task_supervisor::launch::{HostShell, TERMINAL_COLS, TERMINAL_ROWS};
use task_supervisor::model::TaskConfig;
use task_supervisor::state::{
    create_task, delete_task, get_tasks, mark_started, monitor_step, record_start, start_task,
    stop_task_internal, update_task, AppState, MonitorAction, RunningProcess, StartPlan,
    TaskError,
};

fn config(id: &str, command: &str, auto_retry: bool) -> TaskConfig {
    TaskConfig {
        id: id.to_string(),
        name: format!("task {}", id),
        command: command.to_string(),
        tag: "dev".to_string(),
        auto_retry,
        env_vars: None,
    }
}

fn state_with(configs: Vec<TaskConfig>) -> AppState {
    AppState::new(&configs)
}

fn start(state: &mut AppState, id: &str, pid: u32, time: u64) -> RunningProcess {
    match start_task(state, id, HostShell::Posix) {
        Ok(StartPlan::Launch(_)) => {}
        other => panic!("expected a launch, got {:?}", other),
    }
    record_start(state, id, pid, Some(time)).unwrap().unwrap()
}

fn status_of(state: &AppState, id: &str) -> (String, Option<u32>, Option<u64>) {
    let views = get_tasks(state);
    let found: Vec<_> = views.iter().filter(|v| v.config.id == id).collect();
    assert_eq!(found.len(), 1);
    let s = &found[0].status;
    assert_eq!(s.id, id);
    (s.status.clone(), s.pid, s.start_time)
}

#[test]
fn created_task_is_listed_once_and_stopped() {
    let mut state = AppState::empty();
    let id = create_task(
        &mut state,
        "build".to_string(),
        "make".to_string(),
        "ci".to_string(),
        false,
        None,
    )
    .unwrap();
    let views = get_tasks(&state);
    assert_eq!(views.len(), 1);
    assert_eq!(views[0].config.id, id);
    assert_eq!(views[0].config.name, "build");
    assert_eq!(views[0].config.command, "make");
    assert_eq!(views[0].config.tag, "ci");
    assert!(!views[0].config.auto_retry);
    assert_eq!(views[0].status.id, id);
    assert_eq!(views[0].status.status, "stopped");
    assert_eq!(views[0].status.pid, None);
    assert_eq!(views[0].status.start_time, None);
}

#[test]
fn created_ids_are_fresh_hyphenated_uuids() {
    let mut state = AppState::empty();
    let a = create_task(&mut state, "a".into(), "true".into(), "".into(), false, None).unwrap();
    let b = create_task(&mut state, "b".into(), "true".into(), "".into(), false, None).unwrap();
    assert_ne!(a, b);
    for id in [&a, &b] {
        assert_eq!(id.len(), 36);
        let dashes: Vec<usize> = id.char_indices().filter(|(_, c)| *c == '-').map(|(i, _)| i).collect();
        assert_eq!(dashes, vec![8, 13, 18, 23]);
    }
    assert_eq!(get_tasks(&state).len(), 2);
}

#[test]
fn inserting_a_taken_id_is_refused() {
    let mut state = state_with(vec![config("a", "true", false)]);
    assert_eq!(state.insert_task(config("a", "false", true)), Err(TaskError::DuplicateId));
    let views = get_tasks(&state);
    assert_eq!(views.len(), 1);
    assert_eq!(views[0].config.command, "true");
}

#[test]
fn start_twice_keeps_one_instance() {
    let mut state = state_with(vec![config("a", "sleep 60", false)]);
    let first = start(&mut state, "a", 4242, 1_700_000_000);
    assert_eq!(first.pid, 4242);
    match start_task(&state, "a", HostShell::Posix) {
        Ok(StartPlan::AlreadyRunning) => {}
        other => panic!("expected already running, got {:?}", other),
    }
    assert_eq!(record_start(&mut state, "a", 5151, Some(1_700_000_001)), Ok(None));
    assert_eq!(
        status_of(&state, "a"),
        ("running".to_string(), Some(4242), Some(1_700_000_000))
    );
    assert!(state.is_running("a"));
}

#[test]
fn start_of_unknown_task_is_not_found() {
    let mut state = state_with(vec![config("a", "true", false)]);
    assert!(matches!(start_task(&state, "b", HostShell::Posix), Err(TaskError::NotFound)));
    assert_eq!(record_start(&mut state, "b", 1, Some(2)), Err(TaskError::NotFound));
    assert_eq!(mark_started(&mut state, "b", 1), Err(TaskError::NotFound));
}

#[test]
fn launch_uses_the_host_interpreter() {
    let mut env = HashMap::new();
    env.insert("PORT".to_string(), "8080".to_string());
    let mut c = config("a", "echo $PORT", false);
    c.env_vars = Some(env.clone());
    let state = state_with(vec![c]);
    match start_task(&state, "a", HostShell::Posix) {
        Ok(StartPlan::Launch(l)) => {
            assert_eq!(l.program, "sh");
            assert_eq!(l.args, vec!["-c".to_string(), "echo $PORT".to_string()]);
            assert_eq!(l.env_vars, Some(env.clone()));
            assert_eq!((l.rows, l.cols), (24, 80));
            assert_eq!((TERMINAL_ROWS, TERMINAL_COLS), (24, 80));
        }
        other => panic!("expected a launch, got {:?}", other),
    }
    match start_task(&state, "a", HostShell::Windows) {
        Ok(StartPlan::Launch(l)) => {
            assert_eq!(l.program, "cmd");
            assert_eq!(l.args, vec!["/C".to_string(), "echo $PORT".to_string()]);
        }
        other => panic!("expected a launch, got {:?}", other),
    }
}

#[test]
fn unreadable_clock_records_the_epoch() {
    let mut state = state_with(vec![config("a", "sleep 60", false)]);
    let p = record_start(&mut state, "a", 31, None).unwrap().unwrap();
    assert_eq!(p.start_time, 0);
    assert_eq!(status_of(&state, "a"), ("running".to_string(), Some(31), Some(0)));
}

#[test]
fn mark_started_stamps_the_host_clock() {
    let mut state = state_with(vec![config("a", "sleep 60", false)]);
    let p = mark_started(&mut state, "a", 77).unwrap().unwrap();
    assert_eq!(p.pid, 77);
    assert!(p.start_time > 1_600_000_000);
    assert_eq!(status_of(&state, "a"), ("running".to_string(), Some(77), Some(p.start_time)));
}

#[test]
fn stop_reports_whether_it_was_running() {
    let mut state = state_with(vec![config("a", "sleep 60", false)]);
    assert!(!stop_task_internal(&mut state, "a"));
    assert!(!stop_task_internal(&mut state, "unknown"));
    start(&mut state, "a", 10, 20);
    assert!(stop_task_internal(&mut state, "a"));
    assert_eq!(status_of(&state, "a"), ("stopped".to_string(), None, None));
    assert!(!state.is_running("a"));
}

#[test]
fn stop_then_crash_does_not_restart() {
    let mut state = state_with(vec![config("a", "sleep 60", true)]);
    let p = start(&mut state, "a", 10, 20);
    assert!(stop_task_internal(&mut state, "a"));
    assert_eq!(monitor_step(&mut state, "a", p.instance, true), MonitorAction::ExitedManually);
    assert_eq!(status_of(&state, "a"), ("stopped".to_string(), None, None));
}

#[test]
fn monitor_keeps_polling_a_live_instance() {
    let mut state = state_with(vec![config("a", "sleep 60", true)]);
    let p = start(&mut state, "a", 10, 20);
    assert_eq!(monitor_step(&mut state, "a", p.instance, false), MonitorAction::KeepPolling);
    assert_eq!(status_of(&state, "a"), ("running".to_string(), Some(10), Some(20)));
}

#[test]
fn old_monitor_leaves_a_newer_instance_alone() {
    let mut state = state_with(vec![config("a", "sleep 60", true)]);
    let old = start(&mut state, "a", 10, 20);
    stop_task_internal(&mut state, "a");
    let new = start(&mut state, "a", 11, 21);
    assert_ne!(old.instance, new.instance);
    assert_eq!(monitor_step(&mut state, "a", old.instance, true), MonitorAction::ExitedManually);
    assert_eq!(status_of(&state, "a"), ("running".to_string(), Some(11), Some(21)));
}

#[test]
fn auto_retry_restarts_after_each_exit() {
    let mut state = state_with(vec![config("a", "exit 1", true)]);
    let mut p = start(&mut state, "a", 100, 1);
    for cycle in 1..=3u32 {
        assert_eq!(
            monitor_step(&mut state, "a", p.instance, true),
            MonitorAction::RestartAfterCooldown
        );
        assert_eq!(status_of(&state, "a"), ("stopped".to_string(), None, None));
        let next = start(&mut state, "a", 100 + cycle, 1 + cycle as u64);
        assert_ne!(next.pid, p.pid);
        assert_eq!(
            status_of(&state, "a"),
            ("running".to_string(), Some(100 + cycle), Some(1 + cycle as u64))
        );
        p = next;
    }
    update_task(&mut state, "a", "a".into(), "exit 1".into(), "dev".into(), false, None).unwrap();
    assert_eq!(monitor_step(&mut state, "a", p.instance, true), MonitorAction::Idle);
    assert_eq!(status_of(&state, "a"), ("stopped".to_string(), None, None));
}

#[test]
fn deletion_during_cool_down_prevents_restart() {
    let mut state = state_with(vec![config("a", "exit 1", true)]);
    let p = start(&mut state, "a", 100, 1);
    assert_eq!(
        monitor_step(&mut state, "a", p.instance, true),
        MonitorAction::RestartAfterCooldown
    );
    assert_eq!(delete_task(&mut state, "a"), Ok(false));
    assert!(matches!(start_task(&state, "a", HostShell::Posix), Err(TaskError::NotFound)));
    assert!(get_tasks(&state).is_empty());
}

#[test]
fn deleting_a_running_task_stops_it_first() {
    let mut state = state_with(vec![config("a", "sleep 60", true), config("b", "true", false)]);
    let p = start(&mut state, "a", 100, 1);
    assert_eq!(delete_task(&mut state, "a"), Ok(true));
    let views = get_tasks(&state);
    assert_eq!(views.len(), 1);
    assert_eq!(views[0].config.id, "b");
    assert!(!state.is_running("a"));
    assert_eq!(monitor_step(&mut state, "a", p.instance, true), MonitorAction::ExitedManually);
    assert!(matches!(start_task(&state, "a", HostShell::Posix), Err(TaskError::NotFound)));
    assert_eq!(delete_task(&mut state, "a"), Err(TaskError::NotFound));
}

#[test]
fn immediate_exit_without_retry_ends_stopped() {
    let mut state = state_with(vec![config("a", "true", false)]);
    let p = start(&mut state, "a", 100, 1);
    assert_eq!(monitor_step(&mut state, "a", p.instance, true), MonitorAction::Idle);
    assert_eq!(status_of(&state, "a"), ("stopped".to_string(), None, None));
    assert_eq!(monitor_step(&mut state, "a", p.instance, true), MonitorAction::ExitedManually);
    assert_eq!(status_of(&state, "a"), ("stopped".to_string(), None, None));
}

#[test]
fn update_replaces_fields_and_keeps_instance() {
    let mut state = state_with(vec![config("a", "sleep 60", false)]);
    start(&mut state, "a", 9, 8);
    let mut env = HashMap::new();
    env.insert("K".to_string(), "V".to_string());
    update_task(&mut state, "a", "n".into(), "c".into(), "t".into(), true, Some(env.clone()))
        .unwrap();
    let views = get_tasks(&state);
    assert_eq!(views[0].config.id, "a");
    assert_eq!(views[0].config.name, "n");
    assert_eq!(views[0].config.command, "c");
    assert_eq!(views[0].config.tag, "t");
    assert!(views[0].config.auto_retry);
    assert_eq!(views[0].config.env_vars, Some(env));
    assert_eq!(views[0].status.pid, Some(9));
    assert_eq!(
        update_task(&mut state, "zz", "n".into(), "c".into(), "t".into(), true, None),
        Err(TaskError::NotFound)
    );
}

#[test]
fn loading_stops_every_task_and_later_duplicates_win() {
    let state = state_with(vec![
        config("a", "one", false),
        config("b", "two", false),
        config("a", "three", true),
    ]);
    let views = get_tasks(&state);
    assert_eq!(views.len(), 2);
    assert_eq!(views[0].config.id, "a");
    assert_eq!(views[0].config.command, "three");
    assert!(views[0].config.auto_retry);
    assert_eq!(views[1].config.id, "b");
    for v in &views {
        assert_eq!(v.status.status, "stopped");
        assert_eq!(v.status.pid, None);
    }
    let saved = state.configs();
    assert_eq!(saved.len(), 2);
    assert_eq!(saved[0].command, "three");
    assert_eq!(saved[1].command, "two");
}
