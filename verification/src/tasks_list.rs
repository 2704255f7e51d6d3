//! The task list: every task of the run with its status, its execution in a
//! pseudo-terminal while it has one, and the registry of running tasks.

use crate::pty::{exited, recaptured, resized, PtyInstance};
use crate::running_tasks_service::RunningTasksService;
use crate::status::{status_of_name, StatusError, TaskStatus};
use crate::task::{Task, TaskResult};
use vstd::prelude::*;

verus! {

/// One row of the task list.
#[derive(Clone, Debug, PartialEq, Eq)]
pub struct TaskItem {
    /// The descriptor that the host gave last.
    pub task: Task,
    pub status: TaskStatus,
    /// The live execution, present only while the task runs in a subprocess.
    pub pty: Option<PtyInstance>,
    /// The group with which the row is shown, once one has been assigned.
    pub group_id: Option<i32>,
    /// The exit code that the host reported when the task ended.
    pub exit_code: Option<i32>,
    /// The output that the host reported or replayed from a cache.
    pub terminal_output: Option<String>,
}

/// The task list as a value: the rows in the order in which they entered,
/// and the ids that the registry marks as running.
pub struct ListState {
    pub items: Seq<TaskItem>,
    pub running: Set<Seq<char>>,
}

/// The row of a task that has only been announced.
pub open spec fn pending_item(task: Task) -> TaskItem {
    TaskItem {
        task,
        status: TaskStatus::Pending,
        pty: None,
        group_id: None,
        exit_code: None,
        terminal_output: None,
    }
}

/// A row after its execution, if it holds one, has been resized.
pub open spec fn resized_item(item: TaskItem, rows: u16, cols: u16) -> TaskItem {
    match item.pty {
        Some(pty) => TaskItem { pty: Some(resized(pty, rows, cols)), ..item },
        None => item,
    }
}

/// What the list and the registry owe each other for one row: only a running
/// task holds an execution, a running task is marked in the registry, and an
/// ended task is not.
pub open spec fn item_wf(item: TaskItem, running: Set<Seq<char>>) -> bool {
    &&& item.pty is Some ==> item.status == TaskStatus::InProgress
    &&& item.status == TaskStatus::InProgress ==> running.contains(item.task.id@)
    &&& item.status.is_terminal() ==> !running.contains(item.task.id@)
}

impl ListState {
    /// Tells whether the list has a row for the id.
    pub open spec fn has(self, id: Seq<char>) -> bool {
        exists|i: int| 0 <= i < self.items.len() && (#[trigger] self.items[i]).task.id@ == id
    }

    /// The position of the row of the id, or -1 where the list has none.
    pub open spec fn index_of(self, id: Seq<char>) -> int {
        if self.has(id) {
            choose|i: int| 0 <= i < self.items.len() && (#[trigger] self.items[i]).task.id@ == id
        } else {
            -1
        }
    }

    /// The status of a task, if the list knows the task.
    pub open spec fn status_of(self, id: Seq<char>) -> Option<TaskStatus> {
        if self.has(id) {
            Some(self.items[self.index_of(id)].status)
        } else {
            None
        }
    }

    /// The execution currently associated with a task, if there is one.
    pub open spec fn pty_of(self, id: Seq<char>) -> Option<PtyInstance> {
        if self.has(id) {
            self.items[self.index_of(id)].pty
        } else {
            None
        }
    }

    /// No two rows share an id, and every row agrees with the registry.
    pub open spec fn wf(self) -> bool {
        &&& forall|i: int, j: int|
            0 <= i < j < self.items.len() ==> (#[trigger] self.items[i]).task.id@ != (
            #[trigger] self.items[j]).task.id@
        &&& forall|i: int|
            0 <= i < self.items.len() ==> item_wf(#[trigger] self.items[i], self.running)
    }

    /// The list after the host has announced `task`: a task that the list
    /// does not know yet enters it as pending, at the end; a known task is
    /// left as it is.
    pub open spec fn load_one(self, task: Task) -> ListState {
        if self.has(task.id@) {
            self
        } else {
            ListState { items: self.items.push(pending_item(task)), running: self.running }
        }
    }

    /// The list after the host has begun to execute `task`: a pending task,
    /// or one that the list does not know yet, is now in progress and marked
    /// in the registry; a task that is already in progress or has ended is
    /// left as it is. The group of a row is not touched.
    pub open spec fn start_one(self, task: Task) -> ListState {
        let i = self.index_of(task.id@);
        if i < 0 {
            ListState {
                items: self.items.push(
                    TaskItem { status: TaskStatus::InProgress, ..pending_item(task) },
                ),
                running: self.running.insert(task.id@),
            }
        } else if self.items[i].status == TaskStatus::Pending {
            ListState {
                items: self.items.update(
                    i,
                    TaskItem { task, status: TaskStatus::InProgress, ..self.items[i] },
                ),
                running: self.running.insert(task.id@),
            }
        } else {
            self
        }
    }

    /// The list after an execution has been associated with the task `id`:
    /// a task in progress holds the new execution in place of any earlier
    /// one; for every other id nothing changes.
    pub open spec fn attach_pty(self, id: Seq<char>, pty: PtyInstance) -> ListState {
        let i = self.index_of(id);
        if i >= 0 && self.items[i].status == TaskStatus::InProgress {
            ListState {
                items: self.items.update(i, TaskItem { pty: Some(pty), ..self.items[i] }),
                running: self.running,
            }
        } else {
            self
        }
    }

    /// The list after the host has classified the task `id` as a cache hit.
    ///
    /// With a status that is no cache outcome nothing changes. Otherwise the
    /// registry forgets the id, and a task that has not ended yet ends with
    /// `status`, keeps `output` as its terminal output and holds no
    /// execution.
    pub open spec fn complete_cached(
        self,
        id: Seq<char>,
        status: TaskStatus,
        output: Option<String>,
    ) -> ListState {
        let i = self.index_of(id);
        if !status.is_cache() {
            self
        } else if i >= 0 && !self.items[i].status.is_terminal() {
            ListState {
                items: self.items.update(
                    i,
                    TaskItem { status, pty: None, terminal_output: output, ..self.items[i] },
                ),
                running: self.running.remove(id),
            }
        } else {
            ListState { items: self.items, running: self.running.remove(id) }
        }
    }

    /// The list after the host has reported the end of one task.
    ///
    /// A result whose status names no outcome changes nothing. Otherwise the
    /// registry forgets the id, and a task that has not ended yet ends with
    /// the reported status, exit code and output and holds no execution. The
    /// group of the row stays what it was.
    pub open spec fn end_one(self, result: TaskResult) -> ListState {
        let id = result.task.id@;
        let i = self.index_of(id);
        match status_of_name(result.status@) {
            None => self,
            Some(status) => {
                if i >= 0 && !self.items[i].status.is_terminal() {
                    ListState {
                        items: self.items.update(
                            i,
                            TaskItem {
                                task: result.task,
                                status,
                                pty: None,
                                exit_code: Some(result.code),
                                terminal_output: result.terminal_output,
                                ..self.items[i]
                            },
                        ),
                        running: self.running.remove(id),
                    }
                } else {
                    ListState { items: self.items, running: self.running.remove(id) }
                }
            },
        }
    }

    /// The list after the task `id` has been assigned to a group of rows: a
    /// task that the list knows and that has not ended is shown with the
    /// group from now on; for every other id nothing changes.
    pub open spec fn assign_group(self, id: Seq<char>, group_id: i32) -> ListState {
        let i = self.index_of(id);
        if i >= 0 && !self.items[i].status.is_terminal() {
            ListState {
                items: self.items.update(i, TaskItem { group_id: Some(group_id), ..self.items[i] }),
                running: self.running,
            }
        } else {
            self
        }
    }

    /// The list after the subprocess of the task `id` has been seen to end
    /// with `code`: the execution of the task, if it holds one, records the
    /// code unless it had recorded one before.
    pub open spec fn record_exit(self, id: Seq<char>, code: i32) -> ListState {
        let i = self.index_of(id);
        if i >= 0 && self.items[i].pty is Some {
            ListState {
                items: self.items.update(
                    i,
                    TaskItem { pty: Some(exited(self.items[i].pty->Some_0, code)), ..self.items[i] },
                ),
                running: self.running,
            }
        } else {
            self
        }
    }

    /// The list after the screen of the task `id` has been captured anew.
    pub open spec fn record_screen(self, id: Seq<char>, contents: Vec<u8>, scrollback_len: usize) -> ListState {
        let i = self.index_of(id);
        if i >= 0 && self.items[i].pty is Some {
            ListState {
                items: self.items.update(
                    i,
                    TaskItem {
                        pty: Some(recaptured(self.items[i].pty->Some_0, contents, scrollback_len)),
                        ..self.items[i]
                    },
                ),
                running: self.running,
            }
        } else {
            self
        }
    }

    /// The list after every execution has been resized.
    pub open spec fn resize_all(self, rows: u16, cols: u16) -> ListState {
        ListState {
            items: Seq::new(self.items.len(), |i: int| resized_item(self.items[i], rows, cols)),
            running: self.running,
        }
    }

    /// The list after a whole announcement, task by task.
    pub open spec fn load_all(self, tasks: Seq<Task>) -> ListState
        decreases tasks.len(),
    {
        if tasks.len() == 0 {
            self
        } else {
            self.load_all(tasks.drop_last()).load_one(tasks.last())
        }
    }

    /// The list after a whole batch has been started, task by task.
    pub open spec fn start_all(self, tasks: Seq<Task>) -> ListState
        decreases tasks.len(),
    {
        if tasks.len() == 0 {
            self
        } else {
            self.start_all(tasks.drop_last()).start_one(tasks.last())
        }
    }

    /// The list after a whole batch of results, result by result.
    pub open spec fn end_all(self, results: Seq<TaskResult>) -> ListState
        decreases results.len(),
    {
        if results.len() == 0 {
            self
        } else {
            self.end_all(results.drop_last()).end_one(results.last())
        }
    }
}

/// One change of the task list, as a value.
pub enum ListOp {
    Load(Task),
    Start(Task),
    AttachPty(Seq<char>, PtyInstance),
    CompleteCached(Seq<char>, TaskStatus, Option<String>),
    End(TaskResult),
    RecordExit(Seq<char>, i32),
    RecordScreen(Seq<char>, Vec<u8>, usize),
    ResizeAll(u16, u16),
    AssignGroup(Seq<char>, i32),
}

impl ListState {
    /// The list after one change.
    pub open spec fn step(self, op: ListOp) -> ListState {
        match op {
            ListOp::Load(task) => self.load_one(task),
            ListOp::Start(task) => self.start_one(task),
            ListOp::AttachPty(id, pty) => self.attach_pty(id, pty),
            ListOp::CompleteCached(id, status, output) => self.complete_cached(id, status, output),
            ListOp::End(result) => self.end_one(result),
            ListOp::RecordExit(id, code) => self.record_exit(id, code),
            ListOp::RecordScreen(id, contents, scrollback_len) => self.record_screen(id, contents, scrollback_len),
            ListOp::ResizeAll(rows, cols) => self.resize_all(rows, cols),
            ListOp::AssignGroup(id, group_id) => self.assign_group(id, group_id),
        }
    }
}

impl ListState {
    /// The list after a series of changes, first to last.
    pub open spec fn steps(self, ops: Seq<ListOp>) -> ListState
        decreases ops.len(),
    {
        if ops.len() == 0 {
            self
        } else {
            self.steps(ops.drop_last()).step(ops.last())
        }
    }
}

/// Tells whether every result of a batch carries a status that names an
/// outcome.
pub open spec fn all_statuses_known(results: Seq<TaskResult>) -> bool {
    forall|k: int| 0 <= k < results.len() ==> status_of_name((#[trigger] results[k]).status@) is Some
}

/// A row that sits at position `i` of a well-formed list is the row of its id.
pub proof fn lemma_index_of(state: ListState, i: int)
    requires
        state.wf(),
        0 <= i < state.items.len(),
    ensures
        state.has(state.items[i].task.id@),
        state.index_of(state.items[i].task.id@) == i,
{
    let id = state.items[i].task.id@;
    let j = state.index_of(id);
    if j < i {
        assert(state.items[j].task.id@ != state.items[i].task.id@);
    } else if i < j {
        assert(state.items[i].task.id@ != state.items[j].task.id@);
    }
}

/// The task list of the dashboard.
pub struct TasksList {
    pub(crate) tasks: Vec<TaskItem>,
    pub(crate) running: RunningTasksService,
}

impl View for TasksList {
    type V = ListState;

    closed spec fn view(&self) -> ListState {
        ListState { items: self.tasks@, running: self.running@ }
    }
}

impl TasksList {
    /// The list and its registry are consistent.
    pub closed spec fn wf(&self) -> bool {
        self.running.wf() && self@.wf()
    }

    pub(crate) proof fn lemma_view(&self)
        ensures
            self@.items == self.tasks@,
            self@.running == self.running@,
    {
    }

    /// A well-formed list has a well-formed value.
    pub proof fn lemma_wf_view(&self)
        requires
            self.wf(),
        ensures
            self@.wf(),
    {
    }

    /// An empty task list over the given registry. Tasks that the registry
    /// already marks are the ones that an earlier process left behind.
    pub fn new(running: RunningTasksService) -> (list: Self)
        requires
            running.wf(),
        ensures
            list.wf(),
            list@.items == Seq::<TaskItem>::empty(),
            list@.running == running@,
    {
        TasksList { tasks: Vec::new(), running }
    }

    fn find(&self, id: &String) -> (r: Option<usize>)
        requires
            self.wf(),
        ensures
            match r {
                Some(i) => i < self@.items.len() && self@.items[i as int].task.id@ == id@
                    && self@.index_of(id@) == i && self@.has(id@),
                None => !self@.has(id@) && self@.index_of(id@) == -1,
            },
    {
        let mut i: usize = 0;
        while i < self.tasks.len()
            invariant
                self.wf(),
                i <= self.tasks.len(),
                forall|k: int| 0 <= k < i ==> (#[trigger] self.tasks@[k]).task.id@ != id@,
            decreases self.tasks.len() - i,
        {
            if self.tasks[i].task.id == *id {
                proof {
                    lemma_index_of(self@, i as int);
                }
                return Some(i);
            }
            i += 1;
        }
        None
    }

    /// The number of rows.
    pub fn len(&self) -> (n: usize)
        ensures
            n == self@.items.len(),
    {
        self.tasks.len()
    }

    /// The row at a position of the list, in the order of entry.
    pub fn get(&self, index: usize) -> (r: Option<&TaskItem>)
        ensures
            index < self@.items.len() ==> r == Some(&self@.items[index as int]),
            index >= self@.items.len() ==> r is None,
    {
        if index < self.tasks.len() {
            Some(&self.tasks[index])
        } else {
            None
        }
    }

    /// The registry of running tasks that this list keeps.
    pub fn running_tasks(&self) -> (r: &RunningTasksService)
        ensures
            r@ == self@.running,
            self.wf() ==> r.wf(),
    {
        &self.running
    }

    fn load_task(&mut self, task: Task)
        requires
            old(self).wf(),
        ensures
            final(self).wf(),
            final(self)@ == old(self)@.load_one(task),
    {
        if self.find(&task.id).is_none() {
            self.tasks.push(pending_item_exec(task));
        }
    }

    /// Seeds the list with the tasks of the announced task graph: each task
    /// that the list does not know yet enters it as pending, in the order of
    /// the announcement.
    pub fn load_tasks(&mut self, tasks: Vec<Task>)
        requires
            old(self).wf(),
        ensures
            final(self).wf(),
            final(self)@ == old(self)@.load_all(tasks@),
    {
        let ghost start = self@;
        let ghost all = tasks@;
        let ghost mut n: int = 0;
        for task in it: tasks
            invariant
                all == it.seq(),
                n == it.index(),
                self.wf(),
                self@ == start.load_all(all.take(n)),
        {
            assert(all.take(n + 1).drop_last() =~= all.take(n));
            self.load_task(task);
            proof {
                n = n + 1;
            }
        }
        assert(all.take(n) =~= all);
    }

    fn start_task(&mut self, task: Task)
        requires
            old(self).wf(),
        ensures
            final(self).wf(),
            final(self)@ == old(self)@.start_one(task),
    {
        let id = task.id.clone();
        match self.find(&task.id) {
            None => {
                let mut item = pending_item_exec(task);
                item.status = TaskStatus::InProgress;
                self.tasks.push(item);
                let _ = self.running.add_running_task(id);
            },
            Some(i) => {
                if self.tasks[i].status == TaskStatus::Pending {
                    self.tasks[i].task = task;
                    self.tasks[i].status = TaskStatus::InProgress;
                    let _ = self.running.add_running_task(id);
                    assert(self@.items =~= old(self)@.start_one(task).items);
                }
            },
        }
    }

    /// Transitions the named tasks to in progress, as one batch.
    ///
    /// A pending task, or one that was never announced, is in progress
    /// afterwards and marked in the registry. A task that is already in
    /// progress or has ended is not touched.
    pub fn start_tasks(&mut self, tasks: Vec<Task>)
        requires
            old(self).wf(),
        ensures
            final(self).wf(),
            final(self)@ == old(self)@.start_all(tasks@),
    {
        let ghost start = self@;
        let ghost all = tasks@;
        let ghost mut n: int = 0;
        for task in it: tasks
            invariant
                all == it.seq(),
                n == it.index(),
                self.wf(),
                self@ == start.start_all(all.take(n)),
        {
            assert(all.take(n + 1).drop_last() =~= all.take(n));
            self.start_task(task);
            proof {
                n = n + 1;
            }
        }
        assert(all.take(n) =~= all);
    }

    /// Associates a live execution with a task, in place of any earlier one.
    ///
    /// Only a task in progress takes an execution. Returns whether the task
    /// took it; where it did not, the list is unchanged.
    pub fn update_task_pty(&mut self, task_id: String, pty: PtyInstance) -> (attached: bool)
        requires
            old(self).wf(),
        ensures
            final(self).wf(),
            final(self)@ == old(self)@.attach_pty(task_id@, pty),
            attached == (old(self)@.status_of(task_id@) == Some(TaskStatus::InProgress)),
            attached ==> final(self)@.pty_of(task_id@) == Some(pty),
            !attached ==> final(self)@ == old(self)@,
    {
        match self.find(&task_id) {
            Some(i) => {
                if self.tasks[i].status == TaskStatus::InProgress {
                    self.tasks[i].pty = Some(pty);
                    proof {
                        lemma_index_of(self@, i as int);
                    }
                    true
                } else {
                    false
                }
            },
            None => false,
        }
    }

    /// The execution that is currently associated with a task.
    pub fn get_active_pty_for_task(&self, task_id: &String) -> (r: Option<&PtyInstance>)
        requires
            self.wf(),
        ensures
            r is Some <==> self@.pty_of(task_id@) is Some,
            r is Some ==> *r->Some_0 == self@.pty_of(task_id@)->Some_0,
    {
        match self.find(task_id) {
            Some(i) => self.tasks[i].pty.as_ref(),
            None => None,
        }
    }

    /// The status of a task, if the list knows the task.
    pub fn get_task_status(&self, task_id: &String) -> (r: Option<TaskStatus>)
        requires
            self.wf(),
        ensures
            r == self@.status_of(task_id@),
    {
        match self.find(task_id) {
            Some(i) => Some(self.tasks[i].status),
            None => None,
        }
    }

    /// The row of a task, if the list knows the task.
    pub fn get_task(&self, task_id: &String) -> (r: Option<&TaskItem>)
        requires
            self.wf(),
        ensures
            r is Some <==> self@.has(task_id@),
            r is Some ==> *r->Some_0 == self@.items[self@.index_of(task_id@)],
    {
        match self.find(task_id) {
            Some(i) => Some(&self.tasks[i]),
            None => None,
        }
    }

    /// Finalizes a task whose result came from a cache.
    ///
    /// With a status that is no cache outcome the call changes nothing.
    /// Otherwise the registry forgets the task, and a task that has not ended
    /// yet ends with `status`, keeps `output` as its terminal output and
    /// gives up its execution.
    pub fn complete_cached_task(&mut self, task_id: &String, status: TaskStatus, output: Option<String>)
        requires
            old(self).wf(),
        ensures
            final(self).wf(),
            final(self)@ == old(self)@.complete_cached(task_id@, status, output),
            !status.is_cache() ==> final(self)@ == old(self)@,
            status.is_cache() ==> !final(self)@.running.contains(task_id@) && final(self)@.pty_of(
                task_id@,
            ) is None,
    {
        if !status.is_cache_status() {
            return ;
        }
        match self.find(task_id) {
            Some(i) => {
                if !self.tasks[i].status.is_terminal_status() {
                    self.tasks[i].status = status;
                    self.tasks[i].pty = None;
                    self.tasks[i].terminal_output = output;
                    proof {
                        assert(self@.items =~= old(self)@.complete_cached(task_id@, status, output).items);
                    }
                }
                self.running.remove_running_task(task_id.clone());
                proof {
                    lemma_index_of(self@, i as int);
                }
            },
            None => {
                self.running.remove_running_task(task_id.clone());
            },
        }
    }

    fn end_task(&mut self, result: TaskResult)
        requires
            old(self).wf(),
        ensures
            final(self).wf(),
            final(self)@ == old(self)@.end_one(result),
    {
        match TaskStatus::from_str(result.status.as_str()) {
            Err(_) => {},
            Ok(status) => {
                let id = result.task.id.clone();
                match self.find(&id) {
                    Some(i) => {
                        if !self.tasks[i].status.is_terminal_status() {
                            self.tasks[i].task = result.task;
                            self.tasks[i].status = status;
                            self.tasks[i].pty = None;
                                    self.tasks[i].exit_code = Some(result.code);
                            self.tasks[i].terminal_output = result.terminal_output;
                            proof {
                                assert(self@.items =~= old(self)@.end_one(result).items);
                            }
                        }
                    },
                    None => {},
                }
                self.running.remove_running_task(id);
            },
        }
    }

    /// Finalizes a batch of tasks with the status, exit code and output that
    /// the host reports for each.
    ///
    /// The batch is turned down as a whole, before anything changes, when one
    /// of its statuses names no outcome. Otherwise every reported task is
    /// forgotten by the registry and holds no execution afterwards; a task
    /// that had not ended yet takes the reported outcome.
    pub fn end_tasks(&mut self, results: Vec<TaskResult>) -> (r: Result<
        (),
        StatusError,
    >)
        requires
            old(self).wf(),
        ensures
            final(self).wf(),
            all_statuses_known(results@) ==> r == Ok::<(), StatusError>(()) && final(self)@ == old(
                self,
            )@.end_all(results@),
            !all_statuses_known(results@) ==> r == Err::<(), StatusError>(StatusError::Unknown)
                && final(self)@ == old(self)@,
            r is Ok ==> forall|k: int|
                0 <= k < results.len() ==> !final(self)@.running.contains(
                    (#[trigger] results[k]).task.id@,
                ) && final(self)@.pty_of(results[k].task.id@) is None,
    {
        let mut k: usize = 0;
        while k < results.len()
            invariant
                k <= results.len(),
                self.wf(),
                self@ == old(self)@,
                forall|j: int| 0 <= j < k ==> status_of_name((#[trigger] results[j]).status@) is Some,
            decreases results.len() - k,
        {
            if TaskStatus::from_str(results[k].status.as_str()).is_err() {
                return Err(StatusError::Unknown);
            }
            k += 1;
        }
        let ghost start = self@;
        let ghost all = results@;
        let ghost mut n: int = 0;
        for result in it: results
            invariant
                all == it.seq(),
                n == it.index(),
                self.wf(),
                start.wf(),
                all_statuses_known(all),
                self@ == start.end_all(all.take(n)),
        {
            assert(all.take(n + 1).drop_last() =~= all.take(n));
            self.end_task(result);
            proof {
                n = n + 1;
            }
        }
        assert(all.take(n) =~= all);
        proof {
            assert forall|k: int| 0 <= k < all.len() implies !self@.running.contains(
                (#[trigger] all[k]).task.id@,
            ) && self@.pty_of(all[k].task.id@) is None by {
                law_end_releases(start, all, k);
            }
        }
        Ok(())
    }

    /// Assigns a task to a group of rows. Returns whether the list knows the
    /// task and the task has not ended; where that is not so, nothing
    /// changes.
    pub fn set_task_group(&mut self, task_id: &String, group_id: i32) -> (assigned: bool)
        requires
            old(self).wf(),
        ensures
            final(self).wf(),
            final(self)@ == old(self)@.assign_group(task_id@, group_id),
            assigned == (old(self)@.status_of(task_id@) is Some && !old(self)@.status_of(
                task_id@,
            )->Some_0.is_terminal()),
    {
        match self.find(task_id) {
            Some(i) => {
                if !self.tasks[i].status.is_terminal_status() {
                    self.tasks[i].group_id = Some(group_id);
                    proof {
                        assert(self@.items =~= old(self)@.assign_group(task_id@, group_id).items);
                    }
                    true
                } else {
                    false
                }
            },
            None => false,
        }
    }

    /// Records that the subprocess of a task has ended with `code`. The
    /// execution keeps the first code that it is given. Returns whether the
    /// task holds an execution.
    pub fn set_pty_exit_status(&mut self, task_id: &String, code: i32) -> (found: bool)
        requires
            old(self).wf(),
        ensures
            final(self).wf(),
            final(self)@ == old(self)@.record_exit(task_id@, code),
            found == (old(self)@.pty_of(task_id@) is Some),
    {
        match self.find(task_id) {
            Some(i) => {
                let found = self.tasks[i].pty.is_some();
                match &mut self.tasks[i].pty {
                    Some(pty) => {
                        pty.set_exit_status(code);
                    },
                    None => {},
                }
                proof {
                    assert(self@.items =~= old(self)@.record_exit(task_id@, code).items);
                }
                found
            },
            None => false,
        }
    }

    /// Replaces the screen capture of the execution of a task by `contents`,
    /// with `scrollback_len` lines scrolled off. Returns whether the task
    /// holds an execution.
    pub fn capture_pty_screen(&mut self, task_id: &String, contents: Vec<u8>, scrollback_len: usize) -> (found: bool)
        requires
            old(self).wf(),
        ensures
            final(self).wf(),
            final(self)@ == old(self)@.record_screen(task_id@, contents, scrollback_len),
            found == (old(self)@.pty_of(task_id@) is Some),
    {
        match self.find(task_id) {
            Some(i) => {
                let found = self.tasks[i].pty.is_some();
                match &mut self.tasks[i].pty {
                    Some(pty) => {
                        pty.capture_screen(contents, scrollback_len);
                    },
                    None => {},
                }
                proof {
                    assert(self@.items =~= old(self)@.record_screen(task_id@, contents, scrollback_len).items);
                }
                found
            },
            None => false,
        }
    }

    /// Gives every live execution a new terminal size.
    pub fn resize_ptys(&mut self, rows: u16, cols: u16)
        requires
            old(self).wf(),
        ensures
            final(self).wf(),
            final(self)@ == old(self)@.resize_all(rows, cols),
    {
        let mut i: usize = 0;
        while i < self.tasks.len()
            invariant
                i <= self.tasks.len(),
                self.tasks.len() == old(self).tasks.len(),
                self.running == old(self).running,
                forall|k: int| 0 <= k < i ==> #[trigger] self.tasks@[k] == resized_item(old(self).tasks@[k], rows, cols),
                forall|k: int| i <= k < self.tasks.len() ==> #[trigger] self.tasks@[k] == old(self).tasks@[k],
            decreases self.tasks.len() - i,
        {
            match &mut self.tasks[i].pty {
                Some(pty) => {
                    pty.resize(rows, cols);
                },
                None => {},
            }
            i += 1;
        }
        proof {
            assert(self@.items =~= old(self)@.resize_all(rows, cols).items);
        }
    }
}

/// After a batch of results whose statuses all name an outcome, the registry
/// marks none of the reported tasks and none of them holds an execution.
pub proof fn law_end_releases(state: ListState, results: Seq<TaskResult>, k: int)
    requires
        state.wf(),
        all_statuses_known(results),
        0 <= k < results.len(),
    ensures
        state.end_all(results).wf(),
        !state.end_all(results).running.contains(results[k].task.id@),
        state.end_all(results).pty_of(results[k].task.id@) is None,
        state.end_all(results).status_of(results[k].task.id@) is Some
            ==> state.end_all(results).status_of(results[k].task.id@)->Some_0.is_terminal(),
    decreases results.len(),
{
    let front = results.drop_last();
    let before = state.end_all(front);
    lemma_end_all_wf(state, front);
    let last = results.last();
    lemma_end_one(before, last);
    let id = results[k].task.id@;
    if k < results.len() - 1 {
        law_end_releases(state, front, k);
        lemma_end_one_keeps_released(before, last, id);
    }
}

/// A batch of results keeps the list well-formed.
pub proof fn lemma_end_all_wf(state: ListState, results: Seq<TaskResult>)
    requires
        state.wf(),
    ensures
        state.end_all(results).wf(),
    decreases results.len(),
{
    if results.len() > 0 {
        lemma_end_all_wf(state, results.drop_last());
        lemma_end_one(state.end_all(results.drop_last()), results.last());
    }
}

/// One result keeps the list well-formed; if its status names an outcome,
/// the reported task is released and, where the list knows it, has ended.
pub proof fn lemma_end_one(state: ListState, result: TaskResult)
    requires
        state.wf(),
    ensures
        state.end_one(result).wf(),
        status_of_name(result.status@) is Some ==> {
            &&& !state.end_one(result).running.contains(result.task.id@)
            &&& state.end_one(result).pty_of(result.task.id@) is None
            &&& state.end_one(result).status_of(result.task.id@) is Some
                ==> state.end_one(result).status_of(result.task.id@)->Some_0.is_terminal()
        },
{
    let after = state.end_one(result);
    let id = result.task.id@;
    if status_of_name(result.status@) is Some {
        crate::status::lemma_named_status_is_terminal(result.status@);
        if state.has(id) {
            let i = state.index_of(id);
            lemma_index_of(after, i);
        } else {
            if after.has(id) {
                let j = choose|j: int| 0 <= j < after.items.len() && (#[trigger] after.items[j]).task.id@ == id;
                assert(state.items[j].task.id@ == id);
            }
        }
    }
}

/// A task that is released stays released through one more result.
pub proof fn lemma_end_one_keeps_released(state: ListState, result: TaskResult, id: Seq<char>)
    requires
        state.wf(),
        !state.running.contains(id),
        state.pty_of(id) is None,
        state.status_of(id) is Some ==> state.status_of(id)->Some_0.is_terminal(),
    ensures
        !state.end_one(result).running.contains(id),
        state.end_one(result).pty_of(id) is None,
        state.end_one(result).status_of(id) is Some ==> state.end_one(result).status_of(
            id,
        )->Some_0.is_terminal(),
{
    let after = state.end_one(result);
    lemma_end_one(state, result);
    if status_of_name(result.status@) is Some {
        crate::status::lemma_named_status_is_terminal(result.status@);
        if after.has(id) {
            let j = after.index_of(id);
            lemma_index_of(state, j);
        }
    }
}

/// A change that rewrites one row, keeps its id, and leaves it consistent
/// with the registry keeps the list well-formed.
proof fn lemma_update_keeps_wf(state: ListState, i: int, item: TaskItem)
    requires
        state.wf(),
        0 <= i < state.items.len(),
        item.task.id@ == state.items[i].task.id@,
        item_wf(item, state.running),
    ensures
        (ListState { items: state.items.update(i, item), running: state.running }).wf(),
{
    let after = ListState { items: state.items.update(i, item), running: state.running };
    assert forall|a: int, b: int| 0 <= a < b < after.items.len() implies (#[trigger] after.items[a]).task.id@ != (
    #[trigger] after.items[b]).task.id@ by {
        assert(state.items[a].task.id@ != state.items[b].task.id@);
    }
    assert forall|k: int| 0 <= k < after.items.len() implies item_wf(#[trigger] after.items[k], after.running) by {
        assert(item_wf(state.items[k], state.running));
    }
}

/// A row of a task that the list does not know, at the end of the list,
/// keeps the list well-formed if it is consistent with the registry.
proof fn lemma_push_keeps_wf(state: ListState, item: TaskItem)
    requires
        state.wf(),
        !state.has(item.task.id@),
        item_wf(item, state.running),
    ensures
        (ListState { items: state.items.push(item), running: state.running }).wf(),
{
    let after = ListState { items: state.items.push(item), running: state.running };
    assert forall|a: int, b: int| 0 <= a < b < after.items.len() implies (#[trigger] after.items[a]).task.id@ != (
    #[trigger] after.items[b]).task.id@ by {
        if b < state.items.len() {
            assert(state.items[a].task.id@ != state.items[b].task.id@);
        } else {
            assert(state.items[a].task.id@ != item.task.id@);
        }
    }
    assert forall|k: int| 0 <= k < after.items.len() implies item_wf(#[trigger] after.items[k], after.running) by {
        if k < state.items.len() {
            assert(item_wf(state.items[k], state.running));
        }
    }
}

/// Marking or unmarking an id in the registry keeps the list well-formed
/// where no row of another status stands against it.
proof fn lemma_registry_change_keeps_wf(state: ListState, running: Set<Seq<char>>, id: Seq<char>)
    requires
        state.wf(),
        forall|other: Seq<char>| other != id ==> (running.contains(other) <==> state.running.contains(other)),
        state.has(id) ==> item_wf(state.items[state.index_of(id)], running),
    ensures
        (ListState { items: state.items, running }).wf(),
{
    let after = ListState { items: state.items, running };
    assert forall|k: int| 0 <= k < after.items.len() implies item_wf(#[trigger] after.items[k], after.running) by {
        assert(item_wf(state.items[k], state.running));
        if state.items[k].task.id@ == id {
            lemma_index_of(state, k);
        }
    }
}

proof fn lemma_start_one_wf(state: ListState, task: Task)
    requires
        state.wf(),
    ensures
        state.start_one(task).wf(),
{
    let i = state.index_of(task.id@);
    let marked = ListState { items: state.items, running: state.running.insert(task.id@) };
    if i < 0 {
        lemma_registry_change_keeps_wf(state, marked.running, task.id@);
        assert(!marked.has(task.id@));
        lemma_push_keeps_wf(marked, TaskItem { status: TaskStatus::InProgress, ..pending_item(task) });
    } else if state.items[i].status == TaskStatus::Pending {
        lemma_registry_change_keeps_wf(state, marked.running, task.id@);
        lemma_update_keeps_wf(marked, i, TaskItem { task, status: TaskStatus::InProgress, ..state.items[i] });
    }
}

proof fn lemma_complete_cached_wf(state: ListState, id: Seq<char>, status: TaskStatus, output: Option<String>)
    requires
        state.wf(),
    ensures
        state.complete_cached(id, status, output).wf(),
{
    let i = state.index_of(id);
    if status.is_cache() {
        if i >= 0 && !state.items[i].status.is_terminal() {
            let item = TaskItem { status, pty: None, terminal_output: output, ..state.items[i] };
            let ended = ListState { items: state.items.update(i, item), running: state.running.remove(id) };
            assert forall|a: int, b: int| 0 <= a < b < ended.items.len() implies (#[trigger] ended.items[a]).task.id@
                != (#[trigger] ended.items[b]).task.id@ by {
                assert(state.items[a].task.id@ != state.items[b].task.id@);
            }
            assert forall|k: int| 0 <= k < ended.items.len() implies item_wf(
                #[trigger] ended.items[k],
                ended.running,
            ) by {
                assert(item_wf(state.items[k], state.running));
                if k != i {
                    if k < i {
                        assert(state.items[k].task.id@ != state.items[i].task.id@);
                    } else {
                        assert(state.items[i].task.id@ != state.items[k].task.id@);
                    }
                }
            }
        } else {
            lemma_registry_change_keeps_wf(state, state.running.remove(id), id);
        }
    }
}

/// Every change keeps the list well-formed: in every state that the list can
/// reach, only a task in progress holds an execution, a task in progress is
/// marked in the registry, and an ended task is not.
pub proof fn law_step_keeps_wf(state: ListState, op: ListOp)
    requires
        state.wf(),
    ensures
        state.step(op).wf(),
{
    match op {
        ListOp::Load(task) => {
            if !state.has(task.id@) {
                lemma_push_keeps_wf(state, pending_item(task));
            }
        },
        ListOp::Start(task) => {
            lemma_start_one_wf(state, task);
        },
        ListOp::AttachPty(id, pty) => {
            let i = state.index_of(id);
            if i >= 0 && state.items[i].status == TaskStatus::InProgress {
                assert(item_wf(state.items[i], state.running));
                lemma_update_keeps_wf(state, i, TaskItem { pty: Some(pty), ..state.items[i] });
            }
        },
        ListOp::CompleteCached(id, status, output) => {
            lemma_complete_cached_wf(state, id, status, output);
        },
        ListOp::End(result) => {
            lemma_end_one(state, result);
        },
        ListOp::RecordExit(id, code) => {
            let i = state.index_of(id);
            if i >= 0 && state.items[i].pty is Some {
                assert(item_wf(state.items[i], state.running));
                lemma_update_keeps_wf(
                    state,
                    i,
                    TaskItem { pty: Some(exited(state.items[i].pty->Some_0, code)), ..state.items[i] },
                );
            }
        },
        ListOp::RecordScreen(id, contents, scrollback_len) => {
            let i = state.index_of(id);
            if i >= 0 && state.items[i].pty is Some {
                assert(item_wf(state.items[i], state.running));
                lemma_update_keeps_wf(
                    state,
                    i,
                    TaskItem {
                        pty: Some(recaptured(state.items[i].pty->Some_0, contents, scrollback_len)),
                        ..state.items[i]
                    },
                );
            }
        },
        ListOp::ResizeAll(rows, cols) => {
            let after = state.resize_all(rows, cols);
            assert forall|a: int, b: int| 0 <= a < b < after.items.len() implies (#[trigger] after.items[a]).task.id@
                != (#[trigger] after.items[b]).task.id@ by {
                assert(state.items[a].task.id@ != state.items[b].task.id@);
            }
            assert forall|k: int| 0 <= k < after.items.len() implies item_wf(
                #[trigger] after.items[k],
                after.running,
            ) by {
                assert(item_wf(state.items[k], state.running));
            }
        },
        ListOp::AssignGroup(id, group_id) => {
            let i = state.index_of(id);
            if i >= 0 && !state.items[i].status.is_terminal() {
                assert(item_wf(state.items[i], state.running));
                lemma_update_keeps_wf(state, i, TaskItem { group_id: Some(group_id), ..state.items[i] });
            }
        },
    }
}

/// A task that has ended is not revisited: no change alters its row.
pub proof fn law_ended_rows_stay(state: ListState, op: ListOp, i: int)
    requires
        state.wf(),
        0 <= i < state.items.len(),
        state.items[i].status.is_terminal(),
    ensures
        i < state.step(op).items.len(),
        state.step(op).items[i] == state.items[i],
{
    lemma_index_of(state, i);
}

/// A task that has ended takes no execution any more: associating one with
/// it changes nothing.
pub proof fn law_ended_task_takes_no_pty(state: ListState, id: Seq<char>, pty: PtyInstance)
    requires
        state.wf(),
        state.status_of(id) is Some ==> state.status_of(id)->Some_0.is_terminal(),
    ensures
        state.attach_pty(id, pty) == state,
{
}

/// A cache classification with a status that is no cache outcome changes
/// neither the status of the task nor its execution, nor anything else.
pub proof fn law_non_cache_status_is_ignored(
    state: ListState,
    id: Seq<char>,
    status: TaskStatus,
    output: Option<String>,
)
    requires
        !status.is_cache(),
    ensures
        state.complete_cached(id, status, output) == state,
        state.complete_cached(id, status, output).status_of(id) == state.status_of(id),
        state.complete_cached(id, status, output).pty_of(id) == state.pty_of(id),
{
}

/// Every change keeps every row in its place under its id. A change other
/// than the end of a task or a cache hit leaves a status as it is or takes
/// it from pending to in progress.
pub proof fn lemma_rows_keep_their_place(state: ListState, op: ListOp, i: int)
    requires
        state.wf(),
        0 <= i < state.items.len(),
    ensures
        i < state.step(op).items.len(),
        state.step(op).items[i].task.id@ == state.items[i].task.id@,
        state.step(op).index_of(state.items[i].task.id@) == i,
        state.step(op).has(state.items[i].task.id@),
        op is Load || op is Start || op is AttachPty || op is RecordExit || op is RecordScreen || op is ResizeAll
            || op is AssignGroup ==> {
            ||| state.step(op).items[i].status == state.items[i].status
            ||| state.items[i].status == TaskStatus::Pending && state.step(op).items[i].status
                == TaskStatus::InProgress
        },
{
    law_step_keeps_wf(state, op);
    lemma_index_of(state, i);
    let after = state.step(op);
    lemma_index_of(after, i);
}

/// An announcement keeps every row that the list had, changes nothing in the
/// registry, and gives every announced task a row.
pub proof fn law_load_all_announces(state: ListState, tasks: Seq<Task>, k: int)
    requires
        state.wf(),
        0 <= k < tasks.len(),
    ensures
        state.load_all(tasks).wf(),
        state.load_all(tasks).running == state.running,
        state.items.len() <= state.load_all(tasks).items.len(),
        forall|i: int| 0 <= i < state.items.len() ==> #[trigger] state.load_all(tasks).items[i] == state.items[i],
        state.load_all(tasks).has(tasks[k].id@),
        !state.has(tasks[k].id@) ==> state.load_all(tasks).status_of(tasks[k].id@) == Some(TaskStatus::Pending),
    decreases tasks.len(),
{
    let front = tasks.drop_last();
    let before = state.load_all(front);
    lemma_load_all_extends(state, front);
    law_step_keeps_wf(before, ListOp::Load(tasks.last()));
    let after = before.load_one(tasks.last());
    let id = tasks[k].id@;
    if k < tasks.len() - 1 {
        law_load_all_announces(state, front, k);
        let i = before.index_of(id);
        lemma_rows_keep_their_place(before, ListOp::Load(tasks.last()), i);
    } else {
        if before.has(id) {
            let i = before.index_of(id);
            lemma_rows_keep_their_place(before, ListOp::Load(tasks.last()), i);
            if !state.has(id) {
                assert(i >= state.items.len()) by {
                    if i < state.items.len() {
                        assert(state.items[i].task.id@ == id);
                    }
                }
            }
        } else {
            lemma_index_of(after, before.items.len() as int);
        }
    }
    if !state.has(id) {
        lemma_load_all_new_rows_are_pending(state, tasks, after.index_of(id));
    }
}

/// An announcement keeps the registry and every row that the list had.
pub proof fn lemma_load_all_extends(state: ListState, tasks: Seq<Task>)
    requires
        state.wf(),
    ensures
        state.load_all(tasks).wf(),
        state.load_all(tasks).running == state.running,
        state.items.len() <= state.load_all(tasks).items.len(),
        forall|i: int| 0 <= i < state.items.len() ==> #[trigger] state.load_all(tasks).items[i] == state.items[i],
    decreases tasks.len(),
{
    if tasks.len() > 0 {
        lemma_load_all_extends(state, tasks.drop_last());
        law_step_keeps_wf(state.load_all(tasks.drop_last()), ListOp::Load(tasks.last()));
    }
}

/// The rows that an announcement adds are pending.
pub proof fn lemma_load_all_new_rows_are_pending(state: ListState, tasks: Seq<Task>, i: int)
    requires
        state.wf(),
        state.items.len() <= i < state.load_all(tasks).items.len(),
    ensures
        state.load_all(tasks).items[i].status == TaskStatus::Pending,
    decreases tasks.len(),
{
    if tasks.len() > 0 {
        let before = state.load_all(tasks.drop_last());
        lemma_load_all_extends(state, tasks.drop_last());
        if i < before.items.len() {
            lemma_load_all_new_rows_are_pending(state, tasks.drop_last(), i);
        }
    }
}

/// After a batch has been started, each of its tasks has a row. The task is
/// in progress and marked in the registry, unless it had ended before the
/// batch, in which case its row is what it was.
pub proof fn law_start_all_starts(state: ListState, tasks: Seq<Task>, k: int)
    requires
        state.wf(),
        0 <= k < tasks.len(),
    ensures
        state.start_all(tasks).wf(),
        state.start_all(tasks).has(tasks[k].id@),
        match state.status_of(tasks[k].id@) {
            Some(status) if status.is_terminal() => state.start_all(tasks).status_of(tasks[k].id@)
                == Some(status),
            _ => state.start_all(tasks).status_of(tasks[k].id@) == Some(TaskStatus::InProgress)
                && state.start_all(tasks).running.contains(tasks[k].id@),
        },
    decreases tasks.len(),
{
    let front = tasks.drop_last();
    let before = state.start_all(front);
    lemma_start_all_statuses(state, front);
    let op = ListOp::Start(tasks.last());
    law_step_keeps_wf(before, op);
    let after = before.step(op);
    let id = tasks[k].id@;
    if k < tasks.len() - 1 {
        law_start_all_starts(state, front, k);
        let i = before.index_of(id);
        lemma_rows_keep_their_place(before, op, i);
    } else {
        if before.has(id) {
            let i = before.index_of(id);
            lemma_rows_keep_their_place(before, op, i);
            if state.has(id) {
                let j = state.index_of(id);
                lemma_index_of(before, j);
            } else {
                assert(i >= state.items.len()) by {
                    if i < state.items.len() {
                        assert(state.items[i].task.id@ == before.items[i].task.id@);
                    }
                }
            }
        } else {
            lemma_index_of(after, before.items.len() as int);
            assert(!state.has(id)) by {
                if state.has(id) {
                    let j = state.index_of(id);
                    assert(before.items[j].task.id@ == id);
                }
            }
        }
    }
}

/// While a batch is started, rows stay in their place under their id, an
/// ended row stays what it was, every other old row is pending or in
/// progress, and every new row is in progress.
pub proof fn lemma_start_all_statuses(state: ListState, tasks: Seq<Task>)
    requires
        state.wf(),
    ensures
        state.start_all(tasks).wf(),
        state.items.len() <= state.start_all(tasks).items.len(),
        forall|i: int|
            0 <= i < state.items.len() ==> (#[trigger] state.start_all(tasks).items[i]).task.id@
                == state.items[i].task.id@,
        forall|i: int|
            0 <= i < state.items.len() && state.items[i].status.is_terminal() ==> #[trigger] state.start_all(
                tasks,
            ).items[i] == state.items[i],
        forall|i: int|
            0 <= i < state.items.len() && !state.items[i].status.is_terminal() ==> !(#[trigger] state.start_all(
                tasks,
            ).items[i]).status.is_terminal(),
        forall|i: int|
            state.items.len() <= i < state.start_all(tasks).items.len() ==> (#[trigger] state.start_all(
                tasks,
            ).items[i]).status == TaskStatus::InProgress,
    decreases tasks.len(),
{
    if tasks.len() > 0 {
        let before = state.start_all(tasks.drop_last());
        lemma_start_all_statuses(state, tasks.drop_last());
        let op = ListOp::Start(tasks.last());
        law_step_keeps_wf(before, op);
        let after = before.step(op);
        assert forall|i: int| 0 <= i < before.items.len() implies (#[trigger] after.items[i]).task.id@
            == before.items[i].task.id@ && (before.items[i].status.is_terminal() ==> after.items[i]
            == before.items[i]) && (!before.items[i].status.is_terminal() ==> !after.items[i].status.is_terminal())
            && (before.items[i].status == TaskStatus::InProgress ==> after.items[i].status
            == TaskStatus::InProgress) by {
            lemma_rows_keep_their_place(before, op, i);
            if before.items[i].status.is_terminal() {
                law_ended_rows_stay(before, op, i);
            }
        }
    }
}

/// The exit status of an execution, once it is observed, never changes while
/// the task holds that execution: after any change other than a new
/// execution for the task, the task holds no execution or one with the same
/// exit status.
pub proof fn law_exit_status_stays(state: ListState, op: ListOp, id: Seq<char>, code: i32)
    requires
        state.wf(),
        state.pty_of(id) is Some,
        state.pty_of(id)->Some_0.exit_status() == Some(code),
        !(op is AttachPty && op->AttachPty_0 == id),
    ensures
        state.step(op).pty_of(id) is None || state.step(op).pty_of(id)->Some_0.exit_status() == Some(code),
{
    let i = state.index_of(id);
    let pty = state.items[i].pty->Some_0;
    lemma_rows_keep_their_place(state, op, i);
    lemma_index_of(state, i);
    match op {
        ListOp::RecordExit(other, later) => {
            crate::pty::lemma_exited(pty, later);
        },
        ListOp::RecordScreen(other, contents, scrollback_len) => {
            crate::pty::lemma_recaptured(pty, contents, scrollback_len);
        },
        ListOp::ResizeAll(rows, cols) => {
            crate::pty::law_resize_keeps_capture(pty, rows, cols);
        },
        _ => {},
    }
}

/// Any series of changes keeps the list well-formed.
pub proof fn law_steps_keep_wf(state: ListState, ops: Seq<ListOp>)
    requires
        state.wf(),
    ensures
        state.steps(ops).wf(),
    decreases ops.len(),
{
    if ops.len() > 0 {
        law_steps_keep_wf(state, ops.drop_last());
        law_step_keeps_wf(state.steps(ops.drop_last()), ops.last());
    }
}

/// A task that has ended keeps its row through any number of changes.
pub proof fn law_ended_rows_stay_for_good(state: ListState, ops: Seq<ListOp>, i: int)
    requires
        state.wf(),
        0 <= i < state.items.len(),
        state.items[i].status.is_terminal(),
    ensures
        i < state.steps(ops).items.len(),
        state.steps(ops).items[i] == state.items[i],
    decreases ops.len(),
{
    if ops.len() > 0 {
        law_steps_keep_wf(state, ops.drop_last());
        law_ended_rows_stay_for_good(state, ops.drop_last(), i);
        law_ended_rows_stay(state.steps(ops.drop_last()), ops.last(), i);
    }
}

fn pending_item_exec(task: Task) -> (item: TaskItem)
    ensures
        item == pending_item(task),
{
    TaskItem {
        task,
        status: TaskStatus::Pending,
        pty: None,
        group_id: None,
        exit_code: None,
        terminal_output: None,
    }
}

} // verus!
