use nx_tui::app::{Event, KeyCode, KeyEvent, LoopStep};
use nx_tui::lifecycle::{
    AppLifeCycle, ExitPoll, KillOutcome, LifeCycleError, RunningTask, EXIT_POLL_INTERVAL_MS,
};
use nx_tui::pty::PtyInstance;
use nx_tui::running_tasks_service::RunningTasksService;
use nx_tui::status::TaskStatus;
use nx_tui::task::{
    NormalizedCommandOptions, NormalizedRunCommandsOptions, Task, TaskMetadata, TaskOutput,
    TaskOverrides, TaskResult, TaskTarget,
};
use std::collections::HashMap;

fn task(id: &str) -> Task {
    Task {
        id: id.to_string(),
        target: TaskTarget { project: "p".to_string(), target: "t".to_string(), configuration: None },
        overrides: TaskOverrides {},
        outputs: Vec::new(),
        project_root: None,
        hash: None,
        start_time: None,
        end_time: None,
        cache: None,
        parallelism: false,
        continuous: None,
    }
}

fn result(id: &str, status: &str, code: i32, output: Option<&str>) -> TaskResult {
    TaskResult {
        task: task(id),
        status: status.to_string(),
        code,
        terminal_output: output.map(|s| s.to_string()),
    }
}

fn options(commands: &[&str]) -> NormalizedRunCommandsOptions {
    NormalizedRunCommandsOptions {
        commands: commands
            .iter()
            .map(|c| NormalizedCommandOptions { command: c.to_string(), forward_all_args: None })
            .collect(),
        unknown_options: None,
        parsed_args: HashMap::new(),
        unparsed_command_args: None,
        args: None,
        ready_when_status: Vec::new(),
        command: None,
        color: None,
        parallel: None,
        ready_when: None,
        cwd: None,
        env: None,
        forward_all_args: None,
        env_file: None,
        unparsed: Vec::new(),
        use_pty: None,
        stream_output: None,
        tty: None,
    }
}

fn dashboard(ids: &[&str]) -> AppLifeCycle {
    AppLifeCycle::new(
        vec!["p".to_string()],
        ids.iter().map(|id| task(id)).collect(),
        Some(vec!["build".to_string(), "test".to_string()]),
        RunningTasksService::new(Vec::new()),
    )
}

fn status(life_cycle: &AppLifeCycle, id: &str) -> Option<TaskStatus> {
    life_cycle.app().tasks_list().get_task_status(&id.to_string())
}

const GROUP: TaskMetadata = TaskMetadata { group_id: 0 };

fn run(life_cycle: &mut AppLifeCycle, id: &str) -> RunningTask<u8> {
    match life_cycle.__run_commands_for_task(task(id), options(&["echo hello"]), Some((120, 24)), Ok(())) {
        Ok(running) => running,
        Err(error) => panic!("a spawn that went well gives a handle, not {:?}", error),
    }
}

fn bridge<C>(id: &str) -> RunningTask<C> {
    RunningTask::new(task(id), AppLifeCycle::pty_command(options(&["echo hello"]), None))
}

#[test]
fn new_seeds_the_task_list() {
    let life_cycle = dashboard(&["a", "b"]);
    assert_eq!(status(&life_cycle, "a"), Some(TaskStatus::Pending));
    assert_eq!(status(&life_cycle, "b"), Some(TaskStatus::Pending));
    assert_eq!(life_cycle.app().tasks_list().len(), 2);
    assert_eq!(life_cycle.app().target_names(), &vec!["build".to_string(), "test".to_string()]);
    let bare = AppLifeCycle::new(Vec::new(), Vec::new(), None, RunningTasksService::new(Vec::new()));
    assert!(bare.app().target_names().is_empty());
    assert_eq!(bare.app().tasks_list().len(), 0);
}

#[test]
fn schedule_task_changes_nothing() {
    let mut life_cycle = dashboard(&["a"]);
    life_cycle.schedule_task(task("a"));
    life_cycle.schedule_task(task("zz"));
    assert_eq!(status(&life_cycle, "a"), Some(TaskStatus::Pending));
    assert_eq!(status(&life_cycle, "zz"), None);
    assert_eq!(life_cycle.app().tasks_list().len(), 1);
}

#[test]
fn task_graph_ready_announces_more_tasks() {
    let mut life_cycle = dashboard(&["a"]);
    life_cycle.__task_graph_ready(vec![task("a"), task("b")]);
    assert_eq!(life_cycle.app().tasks_list().len(), 2);
    assert_eq!(status(&life_cycle, "b"), Some(TaskStatus::Pending));
}

#[test]
fn full_run_of_one_task() {
    let mut life_cycle = dashboard(&["T1"]);
    life_cycle.start_tasks(vec![task("T1")]);
    assert_eq!(status(&life_cycle, "T1"), Some(TaskStatus::InProgress));
    assert!(life_cycle.app().tasks_list().running_tasks().is_task_running("T1".to_string()));
    let running: RunningTask<u8> = life_cycle
        .__run_commands_for_task(task("T1"), options(&["echo ok"]), Some((120, 40)), Ok(()))
        .ok()
        .unwrap();
    assert_eq!(running.task().id, "T1");
    assert_eq!(running.command(), &AppLifeCycle::pty_command(options(&["echo ok"]), Some((120, 40))));
    assert_eq!(
        life_cycle.app().tasks_list().get_active_pty_for_task(&"T1".to_string()),
        Some(&PtyInstance::new(40, 80))
    );
    assert_eq!(running.get_results(&life_cycle), None);
    assert!(life_cycle.record_pty_screen(&"T1".to_string(), b"ok\r\n".to_vec(), 0));
    assert!(life_cycle.record_pty_exit(&"T1".to_string(), 0));
    assert_eq!(
        running.get_results(&life_cycle),
        Some(TaskOutput { code: 0, terminal_output: "ok\r\n".to_string() })
    );
    assert_eq!(life_cycle.end_tasks(vec![result("T1", "success", 0, Some("ok"))], GROUP), Ok(()));
    assert_eq!(status(&life_cycle, "T1"), Some(TaskStatus::Success));
    assert!(!life_cycle.app().tasks_list().running_tasks().is_task_running("T1".to_string()));
    assert_eq!(life_cycle.app().tasks_list().get_active_pty_for_task(&"T1".to_string()), None);
}

#[test]
fn get_results_without_a_pty_is_zero_and_empty() {
    let mut life_cycle = dashboard(&["cached", "pending"]);
    assert!(life_cycle
        .print_task_terminal_output(task("cached"), "local-cache".to_string(), "replay".to_string())
        .is_ok());
    let empty = TaskOutput { code: 0, terminal_output: String::new() };
    assert_eq!(bridge::<u8>("cached").get_results(&life_cycle), Some(empty.clone()));
    assert_eq!(bridge::<u8>("pending").get_results(&life_cycle), Some(empty.clone()));
    assert_eq!(bridge::<u8>("unheard-of").get_results(&life_cycle), Some(empty));
}

#[test]
fn get_results_sees_a_replaced_pty() {
    let mut life_cycle = dashboard(&["a"]);
    life_cycle.start_tasks(vec![task("a")]);
    let running = run(&mut life_cycle, "a");
    assert!(life_cycle.record_pty_screen(&"a".to_string(), b"first run".to_vec(), 0));
    let again = run(&mut life_cycle, "a");
    assert_eq!(running.get_results(&life_cycle), None);
    assert!(life_cycle.record_pty_screen(&"a".to_string(), b"second run".to_vec(), 0));
    assert!(life_cycle.record_pty_exit(&"a".to_string(), 3));
    let expected = Some(TaskOutput { code: 3, terminal_output: "second run".to_string() });
    assert_eq!(running.get_results(&life_cycle), expected);
    assert_eq!(again.get_results(&life_cycle), expected);
}

#[test]
fn get_results_of_an_exit_without_a_screen_has_empty_output() {
    let mut life_cycle = dashboard(&[]);
    life_cycle.start_tasks(vec![task("a")]);
    let running = run(&mut life_cycle, "a");
    assert!(life_cycle.record_pty_exit(&"a".to_string(), -1));
    assert_eq!(
        running.get_results(&life_cycle),
        Some(TaskOutput { code: -1, terminal_output: String::new() })
    );
}

#[test]
fn exit_callback_fires_once_with_code_and_output() {
    let mut pty = PtyInstance::new(24, 80);
    let mut running: RunningTask<&str> = bridge("a");
    running.on_exit("callback");
    assert!(matches!(running.poll_exit(&pty), ExitPoll::Wait));
    assert!(matches!(running.poll_exit(&pty), ExitPoll::Wait));
    pty.capture_screen(b"compiling...\r\nerror: failed\r\n".to_vec(), 0);
    pty.set_exit_status(1);
    match running.poll_exit(&pty) {
        ExitPoll::Notify(callback, output) => {
            assert_eq!(callback, "callback");
            assert_eq!(output.code, 1);
            assert!(output.terminal_output.contains("error: failed"));
            assert_eq!(output.terminal_output, "compiling...\r\nerror: failed\r\n");
        }
        _ => panic!("the callback is handed out at the first poll that sees the exit"),
    }
    assert!(matches!(running.poll_exit(&pty), ExitPoll::Stop));
    running.on_exit("another");
    assert!(matches!(running.poll_exit(&pty), ExitPoll::Stop));
    assert!(matches!(running.poll_exit(&pty), ExitPoll::Stop));
}

#[test]
fn a_later_callback_replaces_the_earlier() {
    let mut pty = PtyInstance::new(24, 80);
    let mut running: RunningTask<u32> = bridge("a");
    running.on_exit(1);
    running.on_exit(2);
    pty.set_exit_status(0);
    match running.poll_exit(&pty) {
        ExitPoll::Notify(callback, output) => {
            assert_eq!(callback, 2);
            assert_eq!(output, TaskOutput { code: 0, terminal_output: String::new() });
        }
        _ => panic!("the callback is handed out"),
    }
}

#[test]
fn the_monitor_ends_silently_without_a_callback() {
    let mut pty = PtyInstance::new(24, 80);
    let mut running: RunningTask<u32> = bridge("a");
    assert!(matches!(running.poll_exit(&pty), ExitPoll::Wait));
    pty.set_exit_status(0);
    assert!(matches!(running.poll_exit(&pty), ExitPoll::Stop));
    running.on_exit(9);
    assert!(matches!(running.poll_exit(&pty), ExitPoll::Stop));
}

#[test]
fn kill_is_unsupported() {
    let running: RunningTask<u8> = bridge("a");
    assert_eq!(running.kill(None), KillOutcome::Unsupported);
    assert_eq!(running.kill(Some(9)), KillOutcome::Unsupported);
}

#[test]
fn the_poll_interval_is_a_tenth_of_a_second() {
    assert_eq!(EXIT_POLL_INTERVAL_MS, 100);
}

#[test]
fn a_failed_spawn_leaves_no_trace() {
    let mut life_cycle = dashboard(&["a"]);
    life_cycle.start_tasks(vec![task("a")]);
    let r = life_cycle.__run_commands_for_task::<u8>(
        task("a"),
        options(&["echo hello"]),
        Some((80, 24)),
        Err("no such shell".to_string()),
    );
    match r {
        Err(error) => {
            assert_eq!(error, LifeCycleError::SpawnFailure("no such shell".to_string()));
            assert_eq!(error.message(), "Failed to create PTY: no such shell");
        }
        Ok(_) => panic!("a failed spawn is an error"),
    }
    assert_eq!(status(&life_cycle, "a"), Some(TaskStatus::InProgress));
    assert_eq!(life_cycle.app().tasks_list().get_active_pty_for_task(&"a".to_string()), None);
}

#[test]
fn pty_command_runs_the_first_command_through_the_shell() {
    let mut opts = options(&["npm run build -- --watch", "echo never"]);
    opts.cwd = Some("apps/web".to_string());
    let mut env = HashMap::new();
    env.insert("CI".to_string(), "true".to_string());
    opts.env = Some(env.clone());
    let command = AppLifeCycle::pty_command(opts, Some((150, 50)));
    assert_eq!((command.rows, command.cols), (50, 100));
    assert_eq!(command.program, "sh");
    assert_eq!(command.args, vec!["-c".to_string(), "npm run build -- --watch".to_string()]);
    assert_eq!(command.cwd, Some("apps/web".to_string()));
    assert_eq!(command.env, Some(env));
}

#[test]
fn pty_command_without_commands_runs_the_empty_line() {
    let command = AppLifeCycle::pty_command(options(&[]), None);
    assert_eq!((command.rows, command.cols), (24, 52));
    assert_eq!(command.program, "sh");
    assert_eq!(command.args, vec!["-c".to_string(), String::new()]);
    assert_eq!(command.cwd, None);
    assert_eq!(command.env, None);
}

#[test]
fn print_task_terminal_output_rejects_an_unknown_status() {
    let mut life_cycle = dashboard(&["a"]);
    let r = life_cycle.print_task_terminal_output(task("a"), "cached".to_string(), "out".to_string());
    assert_eq!(r, Err(LifeCycleError::InvalidStatus("cached".to_string())));
    assert_eq!(r.unwrap_err().message(), "Invalid task status: cached.");
    assert_eq!(status(&life_cycle, "a"), Some(TaskStatus::Pending));
}

#[test]
fn print_task_terminal_output_ignores_a_live_outcome() {
    let mut life_cycle = dashboard(&["a"]);
    life_cycle.start_tasks(vec![task("a")]);
    let _running = run(&mut life_cycle, "a");
    let pty = PtyInstance::new(24, 80);
    for name in ["success", "failure", "skipped", "stopped"] {
        assert_eq!(
            life_cycle.print_task_terminal_output(task("a"), name.to_string(), "out".to_string()),
            Ok(())
        );
        assert_eq!(status(&life_cycle, "a"), Some(TaskStatus::InProgress));
        let list = life_cycle.app().tasks_list();
        assert_eq!(list.get_active_pty_for_task(&"a".to_string()), Some(&pty));
        assert_eq!(list.get_task(&"a".to_string()).unwrap().terminal_output, None);
    }
}

#[test]
fn print_task_terminal_output_finalizes_a_cache_hit() {
    let mut life_cycle = dashboard(&["a", "b", "c"]);
    assert_eq!(
        life_cycle.print_task_terminal_output(task("a"), "local-cache".to_string(), "A".to_string()),
        Ok(())
    );
    assert_eq!(
        life_cycle.print_task_terminal_output(
            task("b"),
            "local-cache-kept-existing".to_string(),
            "B".to_string()
        ),
        Ok(())
    );
    assert_eq!(
        life_cycle.print_task_terminal_output(task("c"), "remote-cache".to_string(), "C".to_string()),
        Ok(())
    );
    assert_eq!(status(&life_cycle, "a"), Some(TaskStatus::LocalCache));
    assert_eq!(status(&life_cycle, "b"), Some(TaskStatus::LocalCacheKeptExisting));
    assert_eq!(status(&life_cycle, "c"), Some(TaskStatus::RemoteCache));
    let list = life_cycle.app().tasks_list();
    assert_eq!(list.get_task(&"a".to_string()).unwrap().terminal_output, Some("A".to_string()));
    assert_eq!(list.get_task(&"c".to_string()).unwrap().terminal_output, Some("C".to_string()));
}

#[test]
fn end_tasks_names_the_first_unknown_status() {
    let mut life_cycle = dashboard(&["a", "b", "c"]);
    life_cycle.start_tasks(vec![task("a"), task("b"), task("c")]);
    let batch = vec![
        result("a", "success", 0, None),
        result("b", "exploded", 1, None),
        result("c", "vanished", 1, None),
    ];
    assert_eq!(
        life_cycle.end_tasks(batch, GROUP),
        Err(LifeCycleError::InvalidStatus("exploded".to_string()))
    );
    for id in ["a", "b", "c"] {
        assert_eq!(status(&life_cycle, id), Some(TaskStatus::InProgress));
        assert!(life_cycle.app().tasks_list().running_tasks().is_task_running(id.to_string()));
    }
}

#[test]
fn end_tasks_releases_every_reported_task() {
    let mut life_cycle = dashboard(&["a", "b"]);
    life_cycle.start_tasks(vec![task("a"), task("b")]);
    let _a = run(&mut life_cycle, "a");
    assert_eq!(
        life_cycle.end_tasks(
            vec![result("a", "failure", 1, Some("bad")), result("b", "stopped", 130, None)],
            GROUP
        ),
        Ok(())
    );
    let list = life_cycle.app().tasks_list();
    assert_eq!(list.get_task_status(&"a".to_string()), Some(TaskStatus::Failure));
    assert_eq!(list.get_task_status(&"b".to_string()), Some(TaskStatus::Stopped));
    assert_eq!(list.get_active_pty_for_task(&"a".to_string()), None);
    assert_eq!(list.running_tasks().len(), 0);
}

#[test]
fn pty_records_need_a_live_execution() {
    let mut life_cycle = dashboard(&["a"]);
    assert!(!life_cycle.record_pty_exit(&"a".to_string(), 0));
    assert!(!life_cycle.record_pty_screen(&"a".to_string(), b"x".to_vec(), 0));
    assert!(!life_cycle.record_pty_exit(&"nobody".to_string(), 0));
}

#[test]
fn the_loop_runs_behind_the_handle() {
    let mut life_cycle = dashboard(&["a"]);
    assert_eq!(life_cycle.run_iteration(&Event::Tick), LoopStep::RenderFrame);
    let quit = Event::Key(KeyEvent { code: KeyCode::Char('q'), ctrl: false });
    assert_eq!(life_cycle.run_iteration(&quit), LoopStep::Shutdown);
    assert!(life_cycle.app().should_quit());
}

#[test]
fn the_pseudo_terminal_of_an_80_by_24_terminal_has_24_rows_and_52_columns() {
    for size in [Some((80, 24)), None] {
        let mut life_cycle = dashboard(&["a"]);
        life_cycle.start_tasks(vec![task("a")]);
        let running: RunningTask<u8> =
            life_cycle.__run_commands_for_task(task("a"), options(&["ls"]), size, Ok(())).ok().unwrap();
        assert_eq!((running.command().rows, running.command().cols), (24, 52));
        let list = life_cycle.app().tasks_list();
        let pty = list.get_active_pty_for_task(&"a".to_string()).unwrap();
        assert_eq!(pty.size(), (24, 52));
        assert_eq!(pty.get_exit_status(), None);
        assert!(pty.get_screen().is_none());
    }
}

#[test]
fn the_pseudo_terminal_takes_two_thirds_of_any_width() {
    for (width, height, cols) in [
        (0u16, 0u16, 0u16),
        (1, 1, 0),
        (2, 10, 0),
        (3, 10, 2),
        (4, 10, 2),
        (100, 30, 66),
        (65535, 65535, 43690),
    ] {
        let mut life_cycle = dashboard(&[]);
        life_cycle.start_tasks(vec![task("a")]);
        let running: RunningTask<u8> = life_cycle
            .__run_commands_for_task(task("a"), options(&["ls"]), Some((width, height)), Ok(()))
            .ok()
            .unwrap();
        assert!(cols <= width);
        assert_eq!((running.command().rows, running.command().cols), (height, cols));
        assert_eq!(
            life_cycle.app().tasks_list().get_active_pty_for_task(&"a".to_string()).map(|p| p.size()),
            Some((height, cols))
        );
    }
}

#[test]
fn the_task_runs_its_first_command_through_the_shell() {
    let mut life_cycle = dashboard(&["a"]);
    life_cycle.start_tasks(vec![task("a")]);
    let mut opts = options(&["npm run build -- --watch", "echo never"]);
    opts.cwd = Some("apps/web".to_string());
    let mut env = HashMap::new();
    env.insert("CI".to_string(), "true".to_string());
    opts.env = Some(env.clone());
    let running: RunningTask<u8> =
        life_cycle.__run_commands_for_task(task("a"), opts, Some((150, 50)), Ok(())).ok().unwrap();
    let command = running.command();
    assert_eq!(command.program, "sh");
    assert_eq!(command.args, vec!["-c".to_string(), "npm run build -- --watch".to_string()]);
    assert_eq!(command.cwd, Some("apps/web".to_string()));
    assert_eq!(command.env, Some(env));
    assert_eq!((command.rows, command.cols), (50, 100));
}

#[test]
fn a_task_without_commands_runs_the_empty_command_line() {
    let mut life_cycle = dashboard(&["a"]);
    life_cycle.start_tasks(vec![task("a")]);
    let running: RunningTask<u8> =
        life_cycle.__run_commands_for_task(task("a"), options(&[]), None, Ok(())).ok().unwrap();
    assert_eq!(running.command().program, "sh");
    assert_eq!(running.command().args, vec!["-c".to_string(), String::new()]);
    assert_eq!(running.command().cwd, None);
    assert_eq!(running.command().env, None);
}

#[test]
fn a_task_that_is_not_in_progress_takes_no_execution() {
    let mut life_cycle = dashboard(&["a"]);
    let running: RunningTask<u8> =
        life_cycle.__run_commands_for_task(task("a"), options(&["ls"]), None, Ok(())).ok().unwrap();
    assert_eq!(life_cycle.app().tasks_list().get_active_pty_for_task(&"a".to_string()), None);
    assert_eq!(status(&life_cycle, "a"), Some(TaskStatus::Pending));
    assert_eq!(
        running.get_results(&life_cycle),
        Some(TaskOutput { code: 0, terminal_output: String::new() })
    );
}

#[test]
fn the_metadata_of_an_ended_batch_has_no_effect() {
    let mut one = dashboard(&["a", "b"]);
    let mut other = dashboard(&["a", "b"]);
    one.start_tasks(vec![task("a"), task("b")]);
    other.start_tasks(vec![task("a"), task("b")]);
    for id in ["a", "b"] {
        assert_eq!(one.app().tasks_list().get_task(&id.to_string()).unwrap().group_id, None);
    }
    assert!(one.set_task_group(&"b".to_string(), 6));
    assert!(other.set_task_group(&"b".to_string(), 6));
    let results = || vec![result("a", "success", 0, Some("A")), result("b", "failure", 1, None)];
    assert_eq!(one.end_tasks(results(), TaskMetadata { group_id: 2 }), Ok(()));
    assert_eq!(other.end_tasks(results(), TaskMetadata { group_id: -9 }), Ok(()));
    for id in ["a", "b"] {
        assert_eq!(
            one.app().tasks_list().get_task(&id.to_string()),
            other.app().tasks_list().get_task(&id.to_string())
        );
    }
    assert_eq!(one.app().tasks_list().get_task(&"a".to_string()).unwrap().group_id, None);
    assert_eq!(one.app().tasks_list().get_task(&"b".to_string()).unwrap().group_id, Some(6));
    assert_eq!(one.app().tasks_list().render_order(), other.app().tasks_list().render_order());
}
