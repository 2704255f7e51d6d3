//! The operations that the host calls on the dashboard, and the handle that
//! it gets back for each task that it runs in a pseudo-terminal.

use crate::app::{actions_for, drained, App, AppState, Event, LoopStep};
use crate::pty::{fresh_record, lemma_fresh_record, PtyInstance};
use crate::running_tasks_service::RunningTasksService;
use crate::status::{status_of_name, TaskStatus};
use crate::task::{NormalizedRunCommandsOptions, Task, TaskMetadata, TaskOutput, TaskResult};
use crate::tasks_list::{all_statuses_known, ListState, TaskItem};
use crate::terminal_pane::{pty_dimensions, pty_dimensions_of};
use std::collections::HashMap;
use vstd::prelude::*;
use vstd::string::StringExecFns;

verus! {

/// Interval, in milliseconds, between two polls of a running subprocess.
pub const EXIT_POLL_INTERVAL_MS: u64 = 100;

/// Why the dashboard turned an operation down.
#[derive(Clone, Debug, PartialEq, Eq)]
pub enum LifeCycleError {
    /// The status string, carried here, names no outcome.
    InvalidStatus(String),
    /// The subprocess or its pseudo-terminal could not be created, for the
    /// reason carried here.
    SpawnFailure(String),
}

impl LifeCycleError {
    /// The text of the error as a sequence of characters.
    pub open spec fn spec_message(&self) -> Seq<char> {
        match self {
            LifeCycleError::InvalidStatus(status) => "Invalid task status: "@ + status@ + "."@,
            LifeCycleError::SpawnFailure(reason) => "Failed to create PTY: "@ + reason@,
        }
    }

    /// The text of the error.
    pub fn message(&self) -> (text: String)
        ensures
            text@ == self.spec_message(),
    {
        match self {
            LifeCycleError::InvalidStatus(status) => {
                let mut text = "Invalid task status: ".to_owned();
                text.append(status.as_str());
                text.append(".");
                text
            },
            LifeCycleError::SpawnFailure(reason) => {
                let mut text = "Failed to create PTY: ".to_owned();
                text.append(reason.as_str());
                text
            },
        }
    }
}

/// What it takes to spawn the subprocess of a task: the size of its
/// pseudo-terminal and the shell invocation.
#[derive(Clone, Debug, PartialEq, Eq)]
pub struct PtyCommand {
    pub rows: u16,
    pub cols: u16,
    pub program: String,
    pub args: Vec<String>,
    pub cwd: Option<String>,
    pub env: Option<HashMap<String, String>>,
}

/// The command line of a task: its first command, or the empty string where
/// it has none.
pub open spec fn first_command(options: NormalizedRunCommandsOptions) -> Seq<char> {
    if options.commands.len() > 0 {
        options.commands[0].command@
    } else {
        Seq::<char>::empty()
    }
}

/// Tells whether `command` is what runs a task with the given options in a
/// terminal of the given size, as (columns, rows), if it is known: a
/// pseudo-terminal of two thirds of the width and the full height, and the
/// first command of the task handed to `sh -c` as one argument, in the
/// working directory and with the environment that the options name.
/// Commands after the first are not run.
pub open spec fn is_pty_command(
    command: PtyCommand,
    options: NormalizedRunCommandsOptions,
    terminal_size: Option<(u16, u16)>,
) -> bool {
    &&& (command.rows, command.cols) == pty_dimensions_of(terminal_size)
    &&& command.program@ == "sh"@
    &&& command.args@.len() == 2
    &&& command.args@[0]@ == "-c"@
    &&& command.args@[1]@ == first_command(options)
    &&& command.cwd == options.cwd
    &&& command.env == options.env
}

/// The position of the first result whose status names no outcome, or the
/// number of results where every status names one.
pub open spec fn first_unknown_status(results: Seq<TaskResult>) -> int
    decreases results.len(),
{
    if results.len() == 0 {
        0
    } else if status_of_name(results[0].status@) is None {
        0
    } else {
        1 + first_unknown_status(results.drop_first())
    }
}

/// Up to the first unknown status every status names an outcome, and where
/// there is no unknown status the position is the number of results.
pub proof fn lemma_first_unknown_status(results: Seq<TaskResult>)
    ensures
        0 <= first_unknown_status(results) <= results.len(),
        forall|k: int|
            0 <= k < first_unknown_status(results) ==> status_of_name((#[trigger] results[k]).status@) is Some,
        first_unknown_status(results) < results.len() ==> status_of_name(
            results[first_unknown_status(results)].status@,
        ) is None,
        all_statuses_known(results) <==> first_unknown_status(results) == results.len(),
    decreases results.len(),
{
    if results.len() > 0 && status_of_name(results[0].status@) is Some {
        let rest = results.drop_first();
        lemma_first_unknown_status(rest);
        assert forall|k: int| 0 <= k < first_unknown_status(results) implies status_of_name(
            (#[trigger] results[k]).status@,
        ) is Some by {
            if k > 0 {
                assert(rest[k - 1] == results[k]);
            }
        }
        if first_unknown_status(results) < results.len() {
            assert(rest[first_unknown_status(rest)] == results[first_unknown_status(results)]);
        }
    }
}

/// The handle of the dashboard that the host holds.
pub struct AppLifeCycle {
    pub(crate) app: App,
}

impl View for AppLifeCycle {
    type V = AppState;

    closed spec fn view(&self) -> AppState {
        self.app@
    }
}

impl AppLifeCycle {
    /// The dashboard behind the handle is consistent.
    pub closed spec fn wf(&self) -> bool {
        self.app.wf()
    }

    /// The names of the targets that the run was asked for.
    pub closed spec fn spec_target_names(&self) -> Seq<String> {
        self.app.spec_target_names()
    }

    /// A well-formed dashboard has the task list as its first component, and
    /// that list is well-formed.
    pub proof fn lemma_wf_view(&self)
        requires
            self.wf(),
        ensures
            self@.components.len() >= 1,
            self@.components[0] is TasksList,
            self@.tasks().wf(),
    {
        self.app.lemma_wf_view();
    }

    /// Builds the dashboard with a task list that is seeded with `tasks`,
    /// all pending. `targets` are the target names of the run; where the
    /// host could not tell them, the dashboard goes on without any.
    pub fn new(
        project_names: Vec<String>,
        tasks: Vec<Task>,
        targets: Option<Vec<String>>,
        running: RunningTasksService,
    ) -> (life_cycle: Self)
        requires
            running.wf(),
        ensures
            life_cycle.wf(),
            life_cycle@.components.len() == 2,
            life_cycle@.components[0] is TasksList,
            life_cycle@.tasks() == (ListState { items: Seq::<TaskItem>::empty(), running: running@ }).load_all(
                tasks@,
            ),
            life_cycle@.queue.len() == 0,
            !life_cycle@.quit,
            match targets {
                Some(names) => life_cycle.spec_target_names() == names@,
                None => life_cycle.spec_target_names().len() == 0,
            },
    {
        let target_names = match targets {
            Some(names) => names,
            None => Vec::new(),
        };
        AppLifeCycle { app: App::new(tasks, target_names, running) }
    }

    /// The dashboard behind the handle.
    pub fn app(&self) -> (app: &App)
        ensures
            app@ == self@,
            app.wf() == self.wf(),
    {
        &self.app
    }

    /// Scheduling a task is of no concern to the dashboard: nothing changes.
    pub fn schedule_task(&mut self, task: Task)
        ensures
            *final(self) == *old(self),
    {
    }

    /// Seeds the task list with the tasks of the announced task graph.
    pub fn __task_graph_ready(&mut self, tasks: Vec<Task>)
        requires
            old(self).wf(),
        ensures
            final(self).wf(),
            final(self).spec_target_names() == old(self).spec_target_names(),
            final(self)@ == old(self)@.with_tasks(old(self)@.tasks().load_all(tasks@)),
    {
        self.app.load_tasks(tasks);
    }

    /// Transitions a batch of tasks to in progress.
    pub fn start_tasks(&mut self, tasks: Vec<Task>)
        requires
            old(self).wf(),
        ensures
            final(self).wf(),
            final(self).spec_target_names() == old(self).spec_target_names(),
            final(self)@ == old(self)@.with_tasks(old(self)@.tasks().start_all(tasks@)),
    {
        self.app.start_tasks(tasks);
    }

    /// Shows the replayed output of a task whose result came from a cache.
    ///
    /// A status string that names no outcome is turned down before anything
    /// changes. A status that is no cache outcome changes nothing, because
    /// the output of a live run comes from its own pseudo-terminal. For a
    /// cache outcome the task list finalizes the task with `output`.
    pub fn print_task_terminal_output(&mut self, task: Task, status: String, output: String) -> (r: Result<
        (),
        LifeCycleError,
    >)
        requires
            old(self).wf(),
        ensures
            final(self).wf(),
            final(self).spec_target_names() == old(self).spec_target_names(),
            match status_of_name(status@) {
                None => r == Err::<(), LifeCycleError>(LifeCycleError::InvalidStatus(status)) && final(self)@
                    == old(self)@,
                Some(outcome) => r == Ok::<(), LifeCycleError>(()) && final(self)@ == old(self)@.with_tasks(
                    old(self)@.tasks().complete_cached(task.id@, outcome, Some(output)),
                ),
            },
            status_of_name(status@) is Some && !status_of_name(status@)->Some_0.is_cache() ==> final(self)@
                == old(self)@,
    {
        let outcome = match TaskStatus::from_str(status.as_str()) {
            Ok(outcome) => outcome,
            Err(_) => {
                return Err(LifeCycleError::InvalidStatus(status));
            },
        };
        self.app.complete_cached_task(&task.id, outcome, Some(output));
        Ok(())
    }

    /// Finalizes a batch of tasks with the outcome that the host reports for
    /// each.
    ///
    /// The batch is turned down as a whole, before anything changes, when
    /// one of its status strings names no outcome; the error carries the
    /// first such string. Otherwise the registry forgets every reported task
    /// and none of them holds an execution afterwards. What the host says
    /// about the batch has no effect.
    pub fn end_tasks(&mut self, task_results: Vec<TaskResult>, metadata: TaskMetadata) -> (r: Result<
        (),
        LifeCycleError,
    >)
        requires
            old(self).wf(),
        ensures
            final(self).wf(),
            final(self).spec_target_names() == old(self).spec_target_names(),
            all_statuses_known(task_results@) ==> r == Ok::<(), LifeCycleError>(()) && final(self)@ == old(
                self,
            )@.with_tasks(old(self)@.tasks().end_all(task_results@)),
            !all_statuses_known(task_results@) ==> final(self)@ == old(self)@ && r == Err::<
                (),
                LifeCycleError,
            >(LifeCycleError::InvalidStatus(task_results@[first_unknown_status(task_results@)].status)),
            r is Ok ==> forall|k: int|
                0 <= k < task_results.len() ==> !final(self)@.tasks().running.contains(
                    (#[trigger] task_results[k]).task.id@,
                ) && final(self)@.tasks().pty_of(task_results[k].task.id@) is None,
    {
        let mut k: usize = 0;
        while k < task_results.len()
            invariant
                k <= task_results.len(),
                self.wf(),
                *self == *old(self),
                forall|j: int| 0 <= j < k ==> status_of_name((#[trigger] task_results[j]).status@) is Some,
            decreases task_results.len() - k,
        {
            if TaskStatus::from_str(task_results[k].status.as_str()).is_err() {
                proof {
                    lemma_first_unknown_status(task_results@);
                    let first = first_unknown_status(task_results@);
                    if first < k {
                        assert(status_of_name(task_results@[first].status@) is Some);
                    }
                    if first > k {
                        assert(status_of_name(task_results@[k as int].status@) is Some);
                    }
                }
                return Err(LifeCycleError::InvalidStatus(task_results[k].status.clone()));
            }
            k += 1;
        }
        let _ = self.app.end_tasks(task_results);
        Ok(())
    }

    /// Plans the subprocess of a task: a pseudo-terminal of two thirds of the
    /// width and the full height of the terminal, and the first command of
    /// the task run through `sh -c`, in the working directory and with the
    /// environment that the options name.
    pub fn pty_command(options: NormalizedRunCommandsOptions, terminal_size: Option<(u16, u16)>) -> (command:
        PtyCommand)
        ensures
            is_pty_command(command, options, terminal_size),
    {
        let (rows, cols) = pty_dimensions(terminal_size);
        let line = if options.commands.len() > 0 {
            options.commands[0].command.clone()
        } else {
            String::new()
        };
        let mut args: Vec<String> = Vec::new();
        args.push("-c".to_owned());
        args.push(line);
        PtyCommand { rows, cols, program: "sh".to_owned(), args, cwd: options.cwd, env: options.env }
    }

    /// Takes over the subprocess of a task.
    ///
    /// The subprocess is the one that `pty_command` plans for `options` and
    /// `terminal_size`, and `spawned` tells how spawning it went. A failed
    /// spawn is reported and leaves the dashboard as it was. After a
    /// successful one the task, if it is in progress, holds the record of a
    /// fresh execution in a pseudo-terminal of the planned size, and the
    /// caller gets the handle of the running task, which knows the command.
    pub fn __run_commands_for_task<C>(
        &mut self,
        task: Task,
        options: NormalizedRunCommandsOptions,
        terminal_size: Option<(u16, u16)>,
        spawned: Result<(), String>,
    ) -> (r: Result<RunningTask<C>, LifeCycleError>)
        requires
            old(self).wf(),
        ensures
            final(self).wf(),
            final(self).spec_target_names() == old(self).spec_target_names(),
            match spawned {
                Err(reason) => r == Err::<RunningTask<C>, LifeCycleError>(LifeCycleError::SpawnFailure(reason))
                    && final(self)@ == old(self)@,
                Ok(_) => r is Ok && r->Ok_0.spec_task() == task && r->Ok_0.callback() is None
                    && r->Ok_0.monitoring() && is_pty_command(r->Ok_0.spec_command(), options, terminal_size)
                    && final(self)@ == old(self)@.with_tasks(
                    old(self)@.tasks().attach_pty(
                        task.id@,
                        fresh_record(pty_dimensions_of(terminal_size).0, pty_dimensions_of(terminal_size).1),
                    ),
                ),
            },
            spawned is Ok && old(self)@.tasks().status_of(task.id@) == Some(TaskStatus::InProgress) ==> {
                let pty = final(self)@.tasks().pty_of(task.id@);
                &&& pty is Some
                &&& pty->Some_0.spec_rows() == pty_dimensions_of(terminal_size).0
                &&& pty->Some_0.spec_cols() == pty_dimensions_of(terminal_size).1
                &&& pty->Some_0.exit_status() is None
                &&& pty->Some_0.screen() is None
            },
    {
        match spawned {
            Ok(_) => {},
            Err(reason) => {
                return Err(LifeCycleError::SpawnFailure(reason));
            },
        }
        let command = AppLifeCycle::pty_command(options, terminal_size);
        let pty = PtyInstance::new(command.rows, command.cols);
        proof {
            lemma_fresh_record(command.rows, command.cols);
        }
        self.app.update_task_pty(task.id.clone(), pty);
        Ok(RunningTask::new(task, command))
    }

    /// Assigns a task to a group of rows. Returns whether the list knows the
    /// task and the task has not ended; where that is not so, nothing
    /// changes.
    pub fn set_task_group(&mut self, task_id: &String, group_id: i32) -> (assigned: bool)
        requires
            old(self).wf(),
        ensures
            final(self).wf(),
            final(self).spec_target_names() == old(self).spec_target_names(),
            final(self)@ == old(self)@.with_tasks(old(self)@.tasks().assign_group(task_id@, group_id)),
            assigned == (old(self)@.tasks().status_of(task_id@) is Some && !old(self)@.tasks().status_of(
                task_id@,
            )->Some_0.is_terminal()),
    {
        self.app.set_task_group(task_id, group_id)
    }

    /// Records that the subprocess of a task has ended with `code`. Returns
    /// whether the task holds an execution.
    pub fn record_pty_exit(&mut self, task_id: &String, code: i32) -> (found: bool)
        requires
            old(self).wf(),
        ensures
            final(self).wf(),
            final(self).spec_target_names() == old(self).spec_target_names(),
            final(self)@ == old(self)@.with_tasks(old(self)@.tasks().record_exit(task_id@, code)),
            found == (old(self)@.tasks().pty_of(task_id@) is Some),
    {
        self.app.set_pty_exit_status(task_id, code)
    }

    /// Replaces the screen capture of the execution of a task by `contents`,
    /// with `scrollback_len` lines scrolled off. Returns whether the task
    /// holds an execution.
    pub fn record_pty_screen(&mut self, task_id: &String, contents: Vec<u8>, scrollback_len: usize) -> (found: bool)
        requires
            old(self).wf(),
        ensures
            final(self).wf(),
            final(self).spec_target_names() == old(self).spec_target_names(),
            final(self)@ == old(self)@.with_tasks(old(self)@.tasks().record_screen(task_id@, contents, scrollback_len)),
            found == (old(self)@.tasks().pty_of(task_id@) is Some),
    {
        self.app.capture_pty_screen(task_id, contents, scrollback_len)
    }

    /// One turn of the render loop for one terminal event.
    pub fn run_iteration(&mut self, event: &Event) -> (step: LoopStep)
        requires
            old(self).wf(),
        ensures
            final(self).wf(),
            final(self).spec_target_names() == old(self).spec_target_names(),
            final(self)@ == drained(old(self)@.enqueue(actions_for(*event))),
            final(self)@.queue.len() == 0,
            step == if final(self)@.quit {
                LoopStep::Shutdown
            } else {
                LoopStep::RenderFrame
            },
    {
        self.app.run_iteration(event)
    }
}

/// The result of a standard function: `String::from_utf8_lossy` on `bytes`.
pub uninterp spec fn utf8_lossy(bytes: Seq<u8>) -> Seq<char>;

/// Calls `String::from_utf8_lossy` and takes ownership of the text. The
/// result is a function of the bytes alone; for bytes that are valid UTF-8 it
/// is the text that they encode.
#[verifier::external_body]
fn lossy_text(bytes: &Vec<u8>) -> (text: String)
    ensures
        text@ == utf8_lossy(bytes@),
        vstd::utf8::valid_utf8(bytes@) ==> text@ == vstd::utf8::decode_utf8(bytes@),
{
    String::from_utf8_lossy(bytes).into_owned()
}

/// The terminal output of an execution as text: empty while nothing was
/// captured, else the lossy UTF-8 reading of the captured bytes.
pub open spec fn output_text(pty: PtyInstance) -> Seq<char> {
    match pty.screen() {
        Some(screen) => utf8_lossy(screen.contents()),
        None => Seq::<char>::empty(),
    }
}

/// The terminal output of an execution as text.
pub fn captured_output(pty: &PtyInstance) -> (text: String)
    ensures
        text@ == output_text(*pty),
        pty.screen() is Some && vstd::utf8::valid_utf8(pty.captured()) ==> text@ == vstd::utf8::decode_utf8(
            pty.captured(),
        ),
{
    match pty.get_screen() {
        Some(screen) => {
            let bytes = screen.all_contents_formatted();
            lossy_text(&bytes)
        },
        None => String::new(),
    }
}

/// What one poll of the exit monitor asks of its caller.
pub enum ExitPoll<C> {
    /// The subprocess still runs: poll again after the poll interval.
    Wait,
    /// The subprocess has ended: invoke the callback, once, with the exit
    /// code and the captured output, and stop polling.
    Notify(C, TaskOutput),
    /// There is nothing to report, now or later: stop polling.
    Stop,
}

/// What a request to kill a task came to.
#[derive(Clone, Copy, Debug, PartialEq, Eq, Structural)]
pub enum KillOutcome {
    /// The dashboard delivers no signals. The subprocess is left alone; the
    /// caller has to end it by its own means.
    Unsupported,
}

/// The handle of one task that runs in a pseudo-terminal.
pub struct RunningTask<C> {
    task: Task,
    command: PtyCommand,
    exit_callback: Option<C>,
    monitoring: bool,
}

impl<C> RunningTask<C> {
    /// The task of the handle.
    pub closed spec fn spec_task(&self) -> Task {
        self.task
    }

    /// The command that runs the task.
    pub closed spec fn spec_command(&self) -> PtyCommand {
        self.command
    }

    /// The callback that waits for the exit of the subprocess.
    pub closed spec fn callback(&self) -> Option<C> {
        self.exit_callback
    }

    /// Whether the exit monitor has yet to see the subprocess end.
    pub closed spec fn monitoring(&self) -> bool {
        self.monitoring
    }

    /// The handle of a task whose subprocess has just been spawned with
    /// `command`: no callback is registered, and the exit monitor is at work.
    pub fn new(task: Task, command: PtyCommand) -> (running: Self)
        ensures
            running.spec_task() == task,
            running.spec_command() == command,
            running.callback() is None,
            running.monitoring(),
    {
        RunningTask { task, command, exit_callback: None, monitoring: true }
    }

    /// The command that runs the task.
    pub fn command(&self) -> (command: &PtyCommand)
        ensures
            *command == self.spec_command(),
    {
        &self.command
    }

    /// The task of the handle.
    pub fn task(&self) -> (task: &Task)
        ensures
            *task == self.spec_task(),
    {
        &self.task
    }

    /// The exit code and the captured output of the task, once its
    /// subprocess has ended.
    ///
    /// The execution is looked up in the task list at every call, so that a
    /// replaced execution is seen. A task without an execution has the
    /// result (0, empty output) at once. `None` says that the subprocess
    /// still runs: ask again after the poll interval.
    pub fn get_results(&self, life_cycle: &AppLifeCycle) -> (r: Option<TaskOutput>)
        requires
            life_cycle.wf(),
        ensures
            match life_cycle@.tasks().pty_of(self.spec_task().id@) {
                None => r is Some && r->Some_0.code == 0 && r->Some_0.terminal_output@ == Seq::<char>::empty(),
                Some(pty) => match pty.exit_status() {
                    None => r is None,
                    Some(code) => r is Some && r->Some_0.code == code && r->Some_0.terminal_output@
                        == output_text(pty),
                },
            },
    {
        match life_cycle.app.tasks_list().get_active_pty_for_task(&self.task.id) {
            None => Some(TaskOutput { code: 0, terminal_output: String::new() }),
            Some(pty) => {
                match pty.get_exit_status() {
                    None => None,
                    Some(code) => Some(TaskOutput { code, terminal_output: captured_output(pty) }),
                }
            },
        }
    }

    /// Registers the callback that is to be invoked when the subprocess
    /// ends. A callback that was registered before is discarded.
    pub fn on_exit(&mut self, callback: C)
        ensures
            final(self).callback() == Some(callback),
            final(self).monitoring() == old(self).monitoring(),
            final(self).spec_task() == old(self).spec_task(),
            final(self).spec_command() == old(self).spec_command(),
    {
        self.exit_callback = Some(callback);
    }

    /// One poll of the exit monitor on the execution that it watches.
    ///
    /// While the subprocess runs the monitor waits. At the first poll that
    /// sees an exit status the monitor is done for good: it hands out the
    /// registered callback together with the exit code and the captured
    /// output, or stops silently if no callback is registered. Every later
    /// poll stops and changes nothing.
    pub fn poll_exit(&mut self, pty: &PtyInstance) -> (r: ExitPoll<C>)
        ensures
            final(self).spec_task() == old(self).spec_task(),
            final(self).spec_command() == old(self).spec_command(),
            (final(self).monitoring(), final(self).callback()) == monitor_after(
                old(self).monitoring(),
                old(self).callback(),
                pty.exit_status(),
            ),
            !old(self).monitoring() ==> r is Stop,
            old(self).monitoring() && pty.exit_status() is None ==> r is Wait,
            old(self).monitoring() && pty.exit_status() is Some && old(self).callback() is None ==> r is Stop,
            old(self).monitoring() && pty.exit_status() is Some && old(self).callback() is Some ==> r is Notify
                && r->Notify_0 == old(self).callback()->Some_0 && r->Notify_1.code == pty.exit_status()->Some_0
                && r->Notify_1.terminal_output@ == output_text(*pty),
    {
        if !self.monitoring {
            return ExitPoll::Stop;
        }
        match pty.get_exit_status() {
            None => ExitPoll::Wait,
            Some(code) => {
                self.monitoring = false;
                match self.exit_callback.take() {
                    Some(callback) => ExitPoll::Notify(
                        callback,
                        TaskOutput { code, terminal_output: captured_output(pty) },
                    ),
                    None => ExitPoll::Stop,
                }
            },
        }
    }

    /// Killing a task is not supported: the call says so and touches
    /// nothing.
    pub fn kill(&self, signal: Option<i32>) -> (outcome: KillOutcome)
        ensures
            outcome == KillOutcome::Unsupported,
    {
        KillOutcome::Unsupported
    }
}

/// The state of the exit monitor after a poll: whether it still watches, and
/// the callback that still waits.
pub open spec fn monitor_after<C>(monitoring: bool, callback: Option<C>, exit: Option<i32>) -> (bool, Option<C>) {
    if monitoring && exit is Some {
        (false, None)
    } else {
        (monitoring, callback)
    }
}

/// Tells whether a poll in the given state hands out the callback.
pub open spec fn poll_notifies<C>(monitoring: bool, callback: Option<C>, exit: Option<i32>) -> bool {
    monitoring && exit is Some && callback is Some
}

/// The exit callback is invoked at most once: a poll that hands the callback
/// out ends the monitor, and a monitor that has ended never hands out a
/// callback again, whatever is registered or observed later.
pub proof fn law_callback_fires_once<C>(
    monitoring: bool,
    callback: Option<C>,
    exit: Option<i32>,
    later_callback: Option<C>,
    later_exit: Option<i32>,
)
    ensures
        poll_notifies(monitoring, callback, exit) ==> !monitor_after(monitoring, callback, exit).0,
        !monitoring ==> !poll_notifies(monitoring, later_callback, later_exit) && !monitor_after(
            monitoring,
            later_callback,
            later_exit,
        ).0,
        poll_notifies(monitoring, callback, exit) ==> !poll_notifies(
            monitor_after(monitoring, callback, exit).0,
            later_callback,
            later_exit,
        ),
{
}

} // verus!
