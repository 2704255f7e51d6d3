use nx_tui::pty::PtyInstance;
use nx_tui::running_tasks_service::RunningTasksService;
use nx_tui::status::{StatusError, TaskStatus};
use nx_tui::task::{Task, TaskOverrides, TaskResult, TaskTarget};
use nx_tui::tasks_list::TasksList;

fn task(id: &str) -> Task {
    Task {
        id: id.to_string(),
        target: TaskTarget {
            project: "app".to_string(),
            target: "build".to_string(),
            configuration: None,
        },
        overrides: TaskOverrides {},
        outputs: Vec::new(),
        project_root: None,
        hash: None,
        start_time: None,
        end_time: None,
        cache: None,
        parallelism: true,
        continuous: None,
    }
}

fn result(id: &str, status: &str, code: i32, output: Option<&str>) -> TaskResult {
    TaskResult {
        task: task(id),
        status: status.to_string(),
        code,
        terminal_output: output.map(|s| s.to_string()),
    }
}

fn empty_list() -> TasksList {
    TasksList::new(RunningTasksService::new(Vec::new()))
}

fn id(s: &str) -> String {
    s.to_string()
}

#[test]
fn load_start_attach_end_scenario() {
    let mut list = empty_list();
    list.load_tasks(vec![task("T1")]);
    assert_eq!(list.get_task_status(&id("T1")), Some(TaskStatus::Pending));
    list.start_tasks(vec![task("T1")]);
    assert_eq!(list.get_task_status(&id("T1")), Some(TaskStatus::InProgress));
    let p = PtyInstance::new(24, 80);
    assert!(list.update_task_pty(id("T1"), p.clone()));
    assert_eq!(list.get_active_pty_for_task(&id("T1")), Some(&p));
    assert_eq!(list.end_tasks(vec![result("T1", "success", 0, Some("ok"))]), Ok(()));
    assert_eq!(list.get_task_status(&id("T1")), Some(TaskStatus::Success));
    assert_eq!(list.get_active_pty_for_task(&id("T1")), None);
    let row = list.get_task(&id("T1")).unwrap();
    assert_eq!(row.exit_code, Some(0));
    assert_eq!(row.terminal_output, Some("ok".to_string()));
    assert_eq!(row.group_id, None);
}

#[test]
fn load_tasks_seeds_pending_rows_in_order() {
    let mut list = empty_list();
    list.load_tasks(vec![task("a"), task("b"), task("a"), task("c")]);
    assert_eq!(list.len(), 3);
    assert_eq!(list.render_order(), vec![0, 1, 2]);
    for name in ["a", "b", "c"] {
        let row = list.get_task(&id(name)).unwrap();
        assert_eq!(row.task.id, name);
        assert_eq!(row.status, TaskStatus::Pending);
        assert_eq!(row.pty, None);
        assert_eq!(row.group_id, None);
        assert_eq!(row.exit_code, None);
        assert_eq!(row.terminal_output, None);
    }
    assert_eq!(list.get_task_status(&id("d")), None);
    assert!(list.get_task(&id("d")).is_none());
}

#[test]
fn load_tasks_leaves_known_tasks_alone() {
    let mut list = empty_list();
    list.load_tasks(vec![task("a")]);
    list.start_tasks(vec![task("a")]);
    list.load_tasks(vec![task("a"), task("b")]);
    assert_eq!(list.len(), 2);
    assert_eq!(list.get_task_status(&id("a")), Some(TaskStatus::InProgress));
    assert_eq!(list.get_task_status(&id("b")), Some(TaskStatus::Pending));
}

#[test]
fn start_tasks_marks_the_registry() {
    let mut list = empty_list();
    list.load_tasks(vec![task("a"), task("b")]);
    assert!(!list.running_tasks().is_task_running(id("a")));
    list.start_tasks(vec![task("a")]);
    assert!(list.running_tasks().is_task_running(id("a")));
    assert!(!list.running_tasks().is_task_running(id("b")));
    assert_eq!(list.get_task(&id("a")).unwrap().group_id, None);
    assert_eq!(list.get_task_status(&id("b")), Some(TaskStatus::Pending));
}

#[test]
fn start_tasks_adds_a_task_that_was_never_announced() {
    let mut list = empty_list();
    list.start_tasks(vec![task("late")]);
    assert_eq!(list.len(), 1);
    assert_eq!(list.get_task_status(&id("late")), Some(TaskStatus::InProgress));
    assert!(list.running_tasks().is_task_running(id("late")));
}

#[test]
fn start_tasks_takes_the_descriptor_of_the_host() {
    let mut list = empty_list();
    list.load_tasks(vec![task("a")]);
    let mut started = task("a");
    started.start_time = Some(1_700_000_000_000);
    list.start_tasks(vec![started]);
    assert_eq!(list.get_task(&id("a")).unwrap().task.start_time, Some(1_700_000_000_000));
}

#[test]
fn starting_a_task_that_an_earlier_process_left_behind() {
    let registry = RunningTasksService::new(vec![id("a")]);
    let mut list = TasksList::new(registry);
    assert!(list.running_tasks().is_task_running(id("a")));
    assert_eq!(list.get_task_status(&id("a")), None);
    list.load_tasks(vec![task("a")]);
    list.start_tasks(vec![task("a")]);
    assert_eq!(list.get_task_status(&id("a")), Some(TaskStatus::InProgress));
    assert!(list.running_tasks().is_task_running(id("a")));
    assert_eq!(list.running_tasks().len(), 1);
}

#[test]
fn an_ended_task_is_not_started_again() {
    let mut list = empty_list();
    list.load_tasks(vec![task("a")]);
    list.start_tasks(vec![task("a")]);
    assert_eq!(list.end_tasks(vec![result("a", "failure", 2, None)]), Ok(()));
    list.start_tasks(vec![task("a")]);
    assert_eq!(list.get_task_status(&id("a")), Some(TaskStatus::Failure));
    assert_eq!(list.get_task(&id("a")).unwrap().group_id, None);
    assert!(!list.running_tasks().is_task_running(id("a")));
}

#[test]
fn an_ended_task_takes_no_other_outcome() {
    let mut list = empty_list();
    list.start_tasks(vec![task("a")]);
    assert_eq!(list.end_tasks(vec![result("a", "failure", 2, Some("boom"))]), Ok(()));
    assert_eq!(list.end_tasks(vec![result("a", "success", 0, Some("fine"))]), Ok(()));
    let row = list.get_task(&id("a")).unwrap();
    assert_eq!(row.status, TaskStatus::Failure);
    assert_eq!(row.exit_code, Some(2));
    assert_eq!(row.terminal_output, Some("boom".to_string()));
    list.complete_cached_task(&id("a"), TaskStatus::LocalCache, Some(id("cached")));
    assert_eq!(list.get_task_status(&id("a")), Some(TaskStatus::Failure));
}

#[test]
fn update_task_pty_needs_a_task_in_progress() {
    let mut list = empty_list();
    list.load_tasks(vec![task("a")]);
    assert!(!list.update_task_pty(id("a"), PtyInstance::new(1, 1)));
    assert_eq!(list.get_active_pty_for_task(&id("a")), None);
    assert!(!list.update_task_pty(id("nope"), PtyInstance::new(1, 1)));
    assert_eq!(list.get_active_pty_for_task(&id("nope")), None);
    assert_eq!(list.len(), 1);
}

#[test]
fn update_task_pty_replaces_the_execution() {
    let mut list = empty_list();
    list.start_tasks(vec![task("a")]);
    assert!(list.update_task_pty(id("a"), PtyInstance::new(10, 20)));
    assert!(list.update_task_pty(id("a"), PtyInstance::new(30, 40)));
    assert_eq!(list.get_active_pty_for_task(&id("a")).map(|p| p.size()), Some((30, 40)));
}

#[test]
fn no_pty_reaches_a_task_after_its_end() {
    let mut list = empty_list();
    list.start_tasks(vec![task("a")]);
    assert!(list.update_task_pty(id("a"), PtyInstance::new(10, 20)));
    assert_eq!(list.end_tasks(vec![result("a", "success", 0, None)]), Ok(()));
    assert!(!list.running_tasks().is_task_running(id("a")));
    assert_eq!(list.get_active_pty_for_task(&id("a")), None);
    assert!(!list.update_task_pty(id("a"), PtyInstance::new(10, 20)));
    assert_eq!(list.get_active_pty_for_task(&id("a")), None);
    assert!(!list.set_pty_exit_status(&id("a"), 3));
    assert!(!list.capture_pty_screen(&id("a"), b"x".to_vec(), 0));
}

#[test]
fn complete_cached_task_ignores_other_statuses() {
    let mut list = empty_list();
    list.load_tasks(vec![task("a"), task("b")]);
    list.start_tasks(vec![task("a")]);
    let p = PtyInstance::new(24, 80);
    assert!(list.update_task_pty(id("a"), p.clone()));
    for status in [
        TaskStatus::Success,
        TaskStatus::Failure,
        TaskStatus::Skipped,
        TaskStatus::Stopped,
        TaskStatus::Pending,
        TaskStatus::InProgress,
    ] {
        list.complete_cached_task(&id("a"), status, Some(id("ignored")));
        list.complete_cached_task(&id("b"), status, None);
        assert_eq!(list.get_task_status(&id("a")), Some(TaskStatus::InProgress));
        assert_eq!(list.get_active_pty_for_task(&id("a")), Some(&p));
        assert_eq!(list.get_task(&id("a")).unwrap().terminal_output, None);
        assert!(list.running_tasks().is_task_running(id("a")));
        assert_eq!(list.get_task_status(&id("b")), Some(TaskStatus::Pending));
    }
}

#[test]
fn complete_cached_task_finalizes_a_cache_hit() {
    let mut list = empty_list();
    list.load_tasks(vec![task("a"), task("b"), task("c")]);
    list.complete_cached_task(&id("a"), TaskStatus::LocalCache, Some(id("replayed")));
    list.complete_cached_task(&id("b"), TaskStatus::RemoteCache, None);
    list.complete_cached_task(&id("c"), TaskStatus::LocalCacheKeptExisting, Some(id("")));
    assert_eq!(list.get_task_status(&id("a")), Some(TaskStatus::LocalCache));
    assert_eq!(list.get_task(&id("a")).unwrap().terminal_output, Some(id("replayed")));
    assert_eq!(list.get_task_status(&id("b")), Some(TaskStatus::RemoteCache));
    assert_eq!(list.get_task(&id("b")).unwrap().terminal_output, None);
    assert_eq!(list.get_task_status(&id("c")), Some(TaskStatus::LocalCacheKeptExisting));
    assert_eq!(list.get_active_pty_for_task(&id("a")), None);
}

#[test]
fn complete_cached_task_releases_a_running_task() {
    let mut list = empty_list();
    list.start_tasks(vec![task("a")]);
    assert!(list.update_task_pty(id("a"), PtyInstance::new(24, 80)));
    list.complete_cached_task(&id("a"), TaskStatus::RemoteCache, Some(id("hit")));
    assert_eq!(list.get_task_status(&id("a")), Some(TaskStatus::RemoteCache));
    assert_eq!(list.get_active_pty_for_task(&id("a")), None);
    assert!(!list.running_tasks().is_task_running(id("a")));
}

#[test]
fn complete_cached_task_on_an_unknown_task_adds_no_row() {
    let mut list = TasksList::new(RunningTasksService::new(vec![id("ghost")]));
    list.complete_cached_task(&id("ghost"), TaskStatus::LocalCache, None);
    assert_eq!(list.len(), 0);
    assert!(!list.running_tasks().is_task_running(id("ghost")));
}

#[test]
fn end_tasks_rejects_an_unknown_status_before_any_change() {
    let mut list = empty_list();
    list.start_tasks(vec![task("a"), task("b")]);
    assert!(list.update_task_pty(id("a"), PtyInstance::new(24, 80)));
    let batch = vec![result("a", "success", 0, None), result("b", "done", 0, None)];
    assert_eq!(list.end_tasks(batch), Err(StatusError::Unknown));
    assert_eq!(list.get_task_status(&id("a")), Some(TaskStatus::InProgress));
    assert_eq!(list.get_task_status(&id("b")), Some(TaskStatus::InProgress));
    assert!(list.get_active_pty_for_task(&id("a")).is_some());
    assert!(list.running_tasks().is_task_running(id("a")));
    assert!(list.running_tasks().is_task_running(id("b")));
}

#[test]
fn end_tasks_ends_a_whole_batch() {
    let mut list = empty_list();
    list.load_tasks(vec![task("a"), task("b"), task("c"), task("d")]);
    list.start_tasks(vec![task("a"), task("b")]);
    let batch = vec![
        result("a", "success", 0, Some("A")),
        result("b", "failure", 1, Some("B")),
        result("c", "skipped", 0, None),
        result("unknown-task", "stopped", 0, None),
    ];
    assert_eq!(list.end_tasks(batch), Ok(()));
    assert_eq!(list.len(), 4);
    assert_eq!(list.get_task_status(&id("a")), Some(TaskStatus::Success));
    assert_eq!(list.get_task_status(&id("b")), Some(TaskStatus::Failure));
    assert_eq!(list.get_task_status(&id("c")), Some(TaskStatus::Skipped));
    assert_eq!(list.get_task_status(&id("d")), Some(TaskStatus::Pending));
    assert_eq!(list.get_task_status(&id("unknown-task")), None);
    assert_eq!(list.get_task(&id("b")).unwrap().exit_code, Some(1));
    assert_eq!(list.get_task(&id("c")).unwrap().group_id, None);
    assert_eq!(list.running_tasks().len(), 0);
}

#[test]
fn end_tasks_cleans_the_registry_of_an_unknown_task() {
    let mut list = TasksList::new(RunningTasksService::new(vec![id("orphan")]));
    assert_eq!(list.end_tasks(vec![result("orphan", "stopped", 0, None)]), Ok(()));
    assert!(!list.running_tasks().is_task_running(id("orphan")));
    assert_eq!(list.len(), 0);
}

#[test]
fn pty_events_reach_the_execution_of_the_task() {
    let mut list = empty_list();
    list.start_tasks(vec![task("a"), task("b")]);
    assert!(list.update_task_pty(id("a"), PtyInstance::new(24, 80)));
    assert!(!list.set_pty_exit_status(&id("b"), 1));
    assert!(list.capture_pty_screen(&id("a"), b"hello".to_vec(), 0));
    assert!(list.set_pty_exit_status(&id("a"), 5));
    assert!(list.set_pty_exit_status(&id("a"), 6));
    let pty = list.get_active_pty_for_task(&id("a")).unwrap();
    assert_eq!(pty.get_exit_status(), Some(5));
    assert_eq!(pty.all_contents_formatted(), b"hello".to_vec());
    assert_eq!(list.get_task_status(&id("a")), Some(TaskStatus::InProgress));
}

#[test]
fn resize_ptys_resizes_every_execution() {
    let mut list = empty_list();
    list.load_tasks(vec![task("p")]);
    list.start_tasks(vec![task("a"), task("b"), task("c")]);
    assert!(list.update_task_pty(id("a"), PtyInstance::new(24, 80)));
    assert!(list.update_task_pty(id("c"), PtyInstance::new(10, 10)));
    assert!(list.capture_pty_screen(&id("c"), b"kept".to_vec(), 0));
    list.resize_ptys(40, 100);
    assert_eq!(list.get_active_pty_for_task(&id("a")).map(|p| p.size()), Some((40, 100)));
    assert_eq!(list.get_active_pty_for_task(&id("c")).map(|p| p.size()), Some((40, 100)));
    assert_eq!(
        list.get_active_pty_for_task(&id("c")).map(|p| p.all_contents_formatted()),
        Some(b"kept".to_vec())
    );
    assert_eq!(list.get_active_pty_for_task(&id("b")), None);
    assert_eq!(list.get_active_pty_for_task(&id("p")), None);
    assert_eq!(list.len(), 4);
}

#[test]
fn rows_are_reached_by_position() {
    let mut list = empty_list();
    list.load_tasks(vec![task("a"), task("b")]);
    assert_eq!(list.get(0).map(|row| row.task.id.clone()), Some(id("a")));
    assert_eq!(list.get(1).map(|row| row.task.id.clone()), Some(id("b")));
    assert!(list.get(2).is_none());
    assert!(empty_list().get(0).is_none());
}

#[test]
fn starting_and_ending_keep_the_group_of_a_row() {
    let mut list = empty_list();
    list.load_tasks(vec![task("a"), task("b")]);
    assert!(list.set_task_group(&id("a"), 3));
    list.start_tasks(vec![task("a"), task("b")]);
    assert_eq!(list.get_task(&id("a")).unwrap().group_id, Some(3));
    assert_eq!(list.get_task(&id("b")).unwrap().group_id, None);
    assert!(list.set_task_group(&id("b"), 8));
    assert_eq!(
        list.end_tasks(vec![result("a", "success", 0, None), result("b", "failure", 1, None)]),
        Ok(())
    );
    assert_eq!(list.get_task(&id("a")).unwrap().group_id, Some(3));
    assert_eq!(list.get_task(&id("b")).unwrap().group_id, Some(8));
}

#[test]
fn a_group_is_assigned_to_a_task_that_has_not_ended() {
    let mut list = empty_list();
    list.load_tasks(vec![task("a"), task("b")]);
    list.start_tasks(vec![task("b")]);
    assert!(list.set_task_group(&id("a"), -2));
    assert!(list.set_task_group(&id("b"), 5));
    assert!(list.set_task_group(&id("b"), 6));
    assert_eq!(list.get_task(&id("a")).unwrap().group_id, Some(-2));
    assert_eq!(list.get_task(&id("b")).unwrap().group_id, Some(6));
    assert_eq!(list.get_task_status(&id("a")), Some(TaskStatus::Pending));
    assert_eq!(list.get_task_status(&id("b")), Some(TaskStatus::InProgress));
    assert!(!list.set_task_group(&id("nobody"), 1));
    assert_eq!(list.len(), 2);
    assert_eq!(list.end_tasks(vec![result("b", "success", 0, None)]), Ok(()));
    assert!(!list.set_task_group(&id("b"), 9));
    assert_eq!(list.get_task(&id("b")).unwrap().group_id, Some(6));
}
