//! The action-dispatch core: an ordered list of components and the loop that
//! turns terminal events into actions, delivers every action to every
//! component, and decides whether a frame is drawn or the dashboard stops.

use crate::pty::PtyInstance;
use crate::running_tasks_service::RunningTasksService;
use crate::status::{StatusError, TaskStatus};
use crate::task::{Task, TaskResult};
use crate::tasks_list::{all_statuses_known, ListState, TasksList};
use crate::terminal_pane::{output_area_of, pty_dimensions_of, PaneArea, TerminalPane};
use vstd::prelude::*;

verus! {

/// The key of a key press.
#[derive(Clone, Copy, Debug, PartialEq, Eq, Structural)]
pub enum KeyCode {
    Char(char),
    Enter,
    Esc,
    Backspace,
    Tab,
    Up,
    Down,
    Left,
    Right,
    Other,
}

/// A key press.
#[derive(Clone, Copy, Debug, PartialEq, Eq, Structural)]
pub struct KeyEvent {
    pub code: KeyCode,
    /// Whether the control key was held.
    pub ctrl: bool,
}

/// What the terminal reports to the loop.
#[derive(Clone, Debug, PartialEq, Eq)]
pub enum Event {
    /// The periodic tick.
    Tick,
    Key(KeyEvent),
    Mouse,
    /// The terminal has a new size, in columns and rows.
    Resize(u16, u16),
    Paste(String),
}

/// A message of the loop that asks the components to change state.
#[derive(Clone, Copy, Debug, PartialEq, Eq, Structural)]
pub enum Action {
    Tick,
    /// The terminal has a new size, in columns and rows.
    Resize(u16, u16),
    /// Every pseudo-terminal takes a new size, in rows and columns.
    ResizePtys(u16, u16),
    /// The dashboard shuts down.
    Quit,
}

/// What the loop does after it has drained the actions of one event.
#[derive(Clone, Copy, Debug, PartialEq, Eq, Structural)]
pub enum LoopStep {
    /// Draw exactly one frame, then wait for the next event.
    RenderFrame,
    /// Tell the caller that the dashboard is done, and stop.
    Shutdown,
}

/// The quit keys: `q`, and `c` with the control key.
pub open spec fn is_quit_key(key: KeyEvent) -> bool {
    (key.code == KeyCode::Char('q') && !key.ctrl) || (key.code == KeyCode::Char('c') && key.ctrl)
}

/// The actions that an event stands for.
pub open spec fn actions_for(event: Event) -> Seq<Action> {
    match event {
        Event::Tick => seq![Action::Tick],
        Event::Resize(width, height) => seq![Action::Resize(width, height)],
        Event::Key(key) => if is_quit_key(key) {
            seq![Action::Quit]
        } else {
            Seq::<Action>::empty()
        },
        Event::Mouse => Seq::<Action>::empty(),
        Event::Paste(_) => Seq::<Action>::empty(),
    }
}

/// Turns a terminal event into actions.
pub fn event_actions(event: &Event) -> (actions: Vec<Action>)
    ensures
        actions@ == actions_for(*event),
{
    let mut actions: Vec<Action> = Vec::new();
    match event {
        Event::Tick => {
            actions.push(Action::Tick);
        },
        Event::Resize(width, height) => {
            actions.push(Action::Resize(*width, *height));
        },
        Event::Key(key) => {
            let quit = match key.code {
                KeyCode::Char(c) => (c == 'q' && !key.ctrl) || (c == 'c' && key.ctrl),
                _ => false,
            };
            if quit {
                actions.push(Action::Quit);
            }
        },
        Event::Mouse => {},
        Event::Paste(_) => {},
    }
    actions
}

/// A component of the dashboard.
pub enum Component {
    TasksList(TasksList),
    TerminalPane(TerminalPane),
}

/// A component as a value.
pub enum ComponentView {
    TasksList(ListState),
    TerminalPane(PaneArea),
}

impl View for Component {
    type V = ComponentView;

    open spec fn view(&self) -> ComponentView {
        match *self {
            Component::TasksList(list) => ComponentView::TasksList(list@),
            Component::TerminalPane(pane) => ComponentView::TerminalPane(pane.area),
        }
    }
}

/// A component after it has seen an action, and the action that it emits in
/// answer, if any.
///
/// The output pane answers a resize of the terminal by laying itself out and
/// asking for a resize of the pseudo-terminals; the task list answers that
/// request by resizing every live execution. Nothing else has an effect.
pub open spec fn update_model(component: ComponentView, action: Action) -> (ComponentView, Option<Action>) {
    match (component, action) {
        (ComponentView::TerminalPane(_), Action::Resize(width, height)) => {
            let dimensions = pty_dimensions_of(Some((width, height)));
            (
                ComponentView::TerminalPane(output_area_of(width, height)),
                Some(Action::ResizePtys(dimensions.0, dimensions.1)),
            )
        },
        (ComponentView::TasksList(list), Action::ResizePtys(rows, cols)) => (
            ComponentView::TasksList(list.resize_all(rows, cols)),
            None,
        ),
        _ => (component, None),
    }
}

impl Component {
    /// A task list among the components is consistent.
    pub open spec fn wf(&self) -> bool {
        match *self {
            Component::TasksList(list) => list.wf(),
            Component::TerminalPane(_) => true,
        }
    }

    /// Shows the component an action, and returns the action that it emits
    /// in answer, if any.
    pub fn update(&mut self, action: Action) -> (follow_up: Option<Action>)
        requires
            old(self).wf(),
        ensures
            final(self).wf(),
            (final(self)@, follow_up) == update_model(old(self)@, action),
    {
        match self {
            Component::TasksList(list) => {
                match action {
                    Action::ResizePtys(rows, cols) => {
                        list.resize_ptys(rows, cols);
                        None
                    },
                    _ => None,
                }
            },
            Component::TerminalPane(pane) => {
                match action {
                    Action::Resize(width, height) => {
                        let dimensions = pane.handle_resize(width, height);
                        Some(Action::ResizePtys(dimensions.0, dimensions.1))
                    },
                    _ => None,
                }
            },
        }
    }
}

/// The components after each has seen `action`, in the order in which they
/// were registered, and the actions that they emitted, in the same order.
pub open spec fn deliver(components: Seq<ComponentView>, action: Action) -> (Seq<ComponentView>, Seq<Action>)
    decreases components.len(),
{
    if components.len() == 0 {
        (Seq::<ComponentView>::empty(), Seq::<Action>::empty())
    } else {
        let (front, emitted) = deliver(components.drop_last(), action);
        let (last, follow_up) = update_model(components.last(), action);
        (
            front.push(last),
            match follow_up {
                Some(next) => emitted.push(next),
                None => emitted,
            },
        )
    }
}

/// An upper bound on the number of actions that one queued action leads to,
/// itself counted, when `n` components listen: a resize of the terminal can
/// make each component emit one action that has no successor; every other
/// action has none.
pub open spec fn action_weight(action: Action, n: nat) -> nat {
    match action {
        Action::Resize(_, _) => n + 1,
        _ => 1,
    }
}

/// The sum of the weights of the queued actions.
pub open spec fn queue_weight(queue: Seq<Action>, n: nat) -> nat
    decreases queue.len(),
{
    if queue.len() == 0 {
        0
    } else {
        queue_weight(queue.drop_last(), n) + action_weight(queue.last(), n)
    }
}

/// The dashboard as a value: its components in registration order, the
/// actions that wait for delivery, and whether a shutdown was seen.
pub struct AppState {
    pub components: Seq<ComponentView>,
    pub queue: Seq<Action>,
    pub quit: bool,
}

impl AppState {
    /// The state with more actions at the end of the queue.
    pub open spec fn enqueue(self, actions: Seq<Action>) -> AppState {
        AppState { queue: self.queue + actions, ..self }
    }

    /// The state after the first queued action has been delivered to every
    /// component: what the components emitted waits at the end of the queue.
    pub open spec fn step(self) -> AppState
        recommends
            self.queue.len() > 0,
    {
        let action = self.queue[0];
        let (components, emitted) = deliver(self.components, action);
        AppState {
            components,
            queue: self.queue.drop_first() + emitted,
            quit: self.quit || action == Action::Quit,
        }
    }

    /// The state of the task list, which is the first component.
    pub open spec fn tasks(self) -> ListState
        recommends
            self.components.len() > 0,
            self.components[0] is TasksList,
    {
        self.components[0]->TasksList_0
    }

    /// The state with another task list in place of the first component.
    pub open spec fn with_tasks(self, list: ListState) -> AppState {
        AppState { components: self.components.update(0, ComponentView::TasksList(list)), ..self }
    }
}

/// The state after the queue has been worked off, action by action, until it
/// is empty.
pub open spec fn drained(state: AppState) -> AppState
    decreases queue_weight(state.queue, state.components.len()),
    via drained_decreases
{
    if state.queue.len() == 0 {
        state
    } else {
        drained(state.step())
    }
}

#[via_fn]
proof fn drained_decreases(state: AppState) {
    if state.queue.len() > 0 {
        lemma_step_decreases(state);
    }
}

/// The values of a list of components.
pub open spec fn views_of(components: Seq<Component>) -> Seq<ComponentView> {
    Seq::new(components.len(), |i: int| components[i]@)
}

/// The dashboard: its components in the order in which they were registered,
/// and the queue of actions.
pub struct App {
    pub(crate) components: Vec<Component>,
    pub(crate) queue: Vec<Action>,
    pub(crate) quit: bool,
    pub(crate) target_names: Vec<String>,
}

impl View for App {
    type V = AppState;

    closed spec fn view(&self) -> AppState {
        AppState { components: views_of(self.components@), queue: self.queue@, quit: self.quit }
    }
}

impl App {
    /// The first component is the task list, and every task list among the
    /// components is consistent.
    pub closed spec fn wf(&self) -> bool {
        &&& self.components.len() >= 1
        &&& self.components[0] is TasksList
        &&& forall|i: int| 0 <= i < self.components.len() ==> (#[trigger] self.components[i]).wf()
    }

    /// The names of the targets that the run was asked for.
    pub closed spec fn spec_target_names(&self) -> Seq<String> {
        self.target_names@
    }

    /// A well-formed dashboard has the task list as its first component, and
    /// that list is well-formed.
    pub proof fn lemma_wf_view(&self)
        requires
            self.wf(),
        ensures
            self@.components.len() >= 1,
            self@.components[0] is TasksList,
            self@.tasks().wf(),
    {
        match self.components[0] {
            Component::TasksList(list) => {
                list.lemma_wf_view();
            },
            Component::TerminalPane(_) => {},
        }
    }

    /// A dashboard with two components, the task list and then the output
    /// pane. The list is seeded with `tasks`, all pending; no action is
    /// queued.
    pub fn new(tasks: Vec<Task>, target_names: Vec<String>, running: RunningTasksService) -> (app: Self)
        requires
            running.wf(),
        ensures
            app.wf(),
            app@.components.len() == 2,
            app@.components[0] is TasksList,
            app@.tasks() == (ListState { items: Seq::<crate::tasks_list::TaskItem>::empty(), running: running@ }).load_all(
                tasks@,
            ),
            app@.components[1] == ComponentView::TerminalPane(PaneArea { x: 0, y: 0, width: 0, height: 0 }),
            app@.queue.len() == 0,
            !app@.quit,
            app.spec_target_names() == target_names@,
    {
        let mut list = TasksList::new(running);
        list.load_tasks(tasks);
        let mut components: Vec<Component> = Vec::new();
        components.push(Component::TasksList(list));
        components.push(Component::TerminalPane(TerminalPane::new()));
        App { components, queue: Vec::new(), quit: false, target_names }
    }

    /// The names of the targets that the run was asked for.
    pub fn target_names(&self) -> (names: &Vec<String>)
        ensures
            names@ == self.spec_target_names(),
    {
        &self.target_names
    }

    /// The task list.
    pub fn tasks_list(&self) -> (list: &TasksList)
        requires
            self.wf(),
        ensures
            list.wf(),
            list@ == self@.tasks(),
    {
        match &self.components[0] {
            Component::TasksList(list) => list,
            Component::TerminalPane(_) => vstd::pervasive::unreached(),
        }
    }

    /// The components in the order in which they were registered.
    pub fn components(&self) -> (components: &Vec<Component>)
        ensures
            views_of(components@) == self@.components,
    {
        &self.components
    }

    /// Tells whether a shutdown was seen.
    pub fn should_quit(&self) -> (quit: bool)
        ensures
            quit == self@.quit,
    {
        self.quit
    }

    /// Seeds the task list with the tasks of the announced task graph.
    pub fn load_tasks(&mut self, tasks: Vec<Task>)
        requires
            old(self).wf(),
        ensures
            final(self).wf(),
            final(self).spec_target_names() == old(self).spec_target_names(),
            final(self)@ == old(self)@.with_tasks(old(self)@.tasks().load_all(tasks@)),
    {
        match &mut self.components[0] {
            Component::TasksList(list) => {
                list.load_tasks(tasks);
            },
            Component::TerminalPane(_) => {},
        }
        assert(self@.components =~= old(self)@.with_tasks(old(self)@.tasks().load_all(tasks@)).components);
    }

    /// Transitions a batch of tasks to in progress.
    pub fn start_tasks(&mut self, tasks: Vec<Task>)
        requires
            old(self).wf(),
        ensures
            final(self).wf(),
            final(self).spec_target_names() == old(self).spec_target_names(),
            final(self)@ == old(self)@.with_tasks(old(self)@.tasks().start_all(tasks@)),
    {
        match &mut self.components[0] {
            Component::TasksList(list) => {
                list.start_tasks(tasks);
            },
            Component::TerminalPane(_) => {},
        }
        assert(self@.components =~= old(self)@.with_tasks(
            old(self)@.tasks().start_all(tasks@),
        ).components);
    }

    /// Finalizes a task whose result came from a cache; a status that is no
    /// cache outcome changes nothing.
    pub fn complete_cached_task(&mut self, task_id: &String, status: TaskStatus, output: Option<String>)
        requires
            old(self).wf(),
        ensures
            final(self).wf(),
            final(self).spec_target_names() == old(self).spec_target_names(),
            final(self)@ == old(self)@.with_tasks(old(self)@.tasks().complete_cached(task_id@, status, output)),
            !status.is_cache() ==> final(self)@ == old(self)@,
    {
        match &mut self.components[0] {
            Component::TasksList(list) => {
                list.complete_cached_task(task_id, status, output);
            },
            Component::TerminalPane(_) => {},
        }
        assert(self@.components =~= old(self)@.with_tasks(
            old(self)@.tasks().complete_cached(task_id@, status, output),
        ).components);
        assert(!status.is_cache() ==> self@.components =~= old(self)@.components);
    }

    /// Finalizes a batch of tasks, or turns the batch down as a whole, before
    /// anything changes, when one of its statuses names no outcome.
    pub fn end_tasks(&mut self, results: Vec<TaskResult>) -> (r: Result<(), StatusError>)
        requires
            old(self).wf(),
        ensures
            final(self).wf(),
            final(self).spec_target_names() == old(self).spec_target_names(),
            all_statuses_known(results@) ==> r == Ok::<(), StatusError>(()) && final(self)@ == old(
                self,
            )@.with_tasks(old(self)@.tasks().end_all(results@)),
            !all_statuses_known(results@) ==> r == Err::<(), StatusError>(StatusError::Unknown)
                && final(self)@ == old(self)@,
            r is Ok ==> forall|k: int|
                0 <= k < results.len() ==> !final(self)@.tasks().running.contains(
                    (#[trigger] results[k]).task.id@,
                ) && final(self)@.tasks().pty_of(results[k].task.id@) is None,
    {
        let r = match &mut self.components[0] {
            Component::TasksList(list) => list.end_tasks(results),
            Component::TerminalPane(_) => Err(StatusError::Unknown),
        };
        assert(all_statuses_known(results@) ==> self@.components =~= old(self)@.with_tasks(
            old(self)@.tasks().end_all(results@),
        ).components);
        assert(!all_statuses_known(results@) ==> self@.components =~= old(self)@.components);
        r
    }

    /// Associates a live execution with a task in progress, in place of any
    /// earlier one. Returns whether the task took it; where it did not,
    /// nothing changes.
    pub fn update_task_pty(&mut self, task_id: String, pty: PtyInstance) -> (attached: bool)
        requires
            old(self).wf(),
        ensures
            final(self).wf(),
            final(self).spec_target_names() == old(self).spec_target_names(),
            final(self)@ == old(self)@.with_tasks(old(self)@.tasks().attach_pty(task_id@, pty)),
            attached == (old(self)@.tasks().status_of(task_id@) == Some(TaskStatus::InProgress)),
            attached ==> final(self)@.tasks().pty_of(task_id@) == Some(pty),
    {
        let attached = match &mut self.components[0] {
            Component::TasksList(list) => list.update_task_pty(task_id, pty),
            Component::TerminalPane(_) => false,
        };
        assert(self@.components =~= old(self)@.with_tasks(old(self)@.tasks().attach_pty(task_id@, pty)).components);
        attached
    }

    /// Assigns a task to a group of rows. Returns whether the list knows the
    /// task and the task has not ended; where that is not so, nothing
    /// changes.
    pub fn set_task_group(&mut self, task_id: &String, group_id: i32) -> (assigned: bool)
        requires
            old(self).wf(),
        ensures
            final(self).wf(),
            final(self).spec_target_names() == old(self).spec_target_names(),
            final(self)@ == old(self)@.with_tasks(old(self)@.tasks().assign_group(task_id@, group_id)),
            assigned == (old(self)@.tasks().status_of(task_id@) is Some && !old(self)@.tasks().status_of(
                task_id@,
            )->Some_0.is_terminal()),
    {
        let assigned = match &mut self.components[0] {
            Component::TasksList(list) => list.set_task_group(task_id, group_id),
            Component::TerminalPane(_) => false,
        };
        assert(self@.components =~= old(self)@.with_tasks(
            old(self)@.tasks().assign_group(task_id@, group_id),
        ).components);
        assigned
    }

    /// Records that the subprocess of a task has ended with `code`. Returns
    /// whether the task holds an execution.
    pub fn set_pty_exit_status(&mut self, task_id: &String, code: i32) -> (found: bool)
        requires
            old(self).wf(),
        ensures
            final(self).wf(),
            final(self).spec_target_names() == old(self).spec_target_names(),
            final(self)@ == old(self)@.with_tasks(old(self)@.tasks().record_exit(task_id@, code)),
            found == (old(self)@.tasks().pty_of(task_id@) is Some),
    {
        let found = match &mut self.components[0] {
            Component::TasksList(list) => list.set_pty_exit_status(task_id, code),
            Component::TerminalPane(_) => false,
        };
        assert(self@.components =~= old(self)@.with_tasks(old(self)@.tasks().record_exit(task_id@, code)).components);
        found
    }

    /// Replaces the screen capture of the execution of a task by `contents`,
    /// with `scrollback_len` lines scrolled off. Returns whether the task
    /// holds an execution.
    pub fn capture_pty_screen(&mut self, task_id: &String, contents: Vec<u8>, scrollback_len: usize) -> (found: bool)
        requires
            old(self).wf(),
        ensures
            final(self).wf(),
            final(self).spec_target_names() == old(self).spec_target_names(),
            final(self)@ == old(self)@.with_tasks(old(self)@.tasks().record_screen(task_id@, contents, scrollback_len)),
            found == (old(self)@.tasks().pty_of(task_id@) is Some),
    {
        let found = match &mut self.components[0] {
            Component::TasksList(list) => list.capture_pty_screen(task_id, contents, scrollback_len),
            Component::TerminalPane(_) => false,
        };
        assert(self@.components =~= old(self)@.with_tasks(
            old(self)@.tasks().record_screen(task_id@, contents, scrollback_len),
        ).components);
        found
    }

    /// Turns a terminal event into actions and puts them at the end of
    /// the queue.
    pub fn handle_event(&mut self, event: &Event)
        requires
            old(self).wf(),
        ensures
            final(self).wf(),
            final(self).spec_target_names() == old(self).spec_target_names(),
            final(self)@ == old(self)@.enqueue(actions_for(*event)),
    {
        let mut actions = event_actions(event);
        self.queue.append(&mut actions);
    }

    /// Works the queue off: delivers each action to every component in
    /// registration order and queues what the components emit, until no
    /// action is left.
    pub fn process_actions(&mut self)
        requires
            old(self).wf(),
        ensures
            final(self).wf(),
            final(self).spec_target_names() == old(self).spec_target_names(),
            final(self)@ == drained(old(self)@),
            final(self)@.queue.len() == 0,
    {
        let ghost start = self@;
        while self.queue.len() > 0
            invariant
                self.wf(),
                self.target_names == old(self).target_names,
                drained(self@) == drained(start),
            decreases queue_weight(self@.queue, self@.components.len()),
        {
            let ghost before = self@;
            let ghost entering = self.components@;
            proof {
                lemma_step_decreases(before);
            }
            let action = self.queue.remove(0);
            if action == Action::Quit {
                self.quit = true;
            }
            let ghost rest = self.queue@;
            let n = self.components.len();
            let mut i: usize = 0;
            while i < n
                invariant
                    i <= n,
                    n == self.components.len(),
                    n == entering.len(),
                    n >= 1,
                    self.target_names == old(self).target_names,
                    entering[0] is TasksList,
                    self.components[0] is TasksList,
                    forall|k: int| 0 <= k < n ==> (#[trigger] self.components[k]).wf(),
                    self.quit == (before.quit || action == Action::Quit),
                    views_of(self.components@).take(i as int) == deliver(views_of(entering).take(i as int), action).0,
                    forall|k: int| i <= k < n ==> #[trigger] self.components[k] == entering[k],
                    self.queue@ == rest + deliver(views_of(entering).take(i as int), action).1,
                decreases n - i,
            {
                let ghost views = views_of(entering);
                let ghost current = views_of(self.components@);
                let follow_up = self.components[i].update(action);
                match follow_up {
                    Some(next) => {
                        self.queue.push(next);
                    },
                    None => {},
                }
                proof {
                    assert(views.take(i + 1).drop_last() =~= views.take(i as int));
                    lemma_deliver(views.take(i as int), action);
                    assert(views_of(self.components@).take(i + 1) =~= current.take(i as int).push(
                        self.components[i as int]@,
                    ));
                }
                i += 1;
            }
            proof {
                assert(views_of(entering).take(n as int) =~= views_of(entering));
                assert(views_of(self.components@).take(n as int) =~= views_of(self.components@));
            }
        }
    }

    /// One turn of the loop: turns the event into actions, works the queue off, and
    /// says whether to draw a frame or to stop. A frame is drawn only when
    /// no action is left, and the loop stops exactly when a shutdown was
    /// seen.
    pub fn run_iteration(&mut self, event: &Event) -> (step: LoopStep)
        requires
            old(self).wf(),
        ensures
            final(self).wf(),
            final(self).spec_target_names() == old(self).spec_target_names(),
            final(self)@ == drained(old(self)@.enqueue(actions_for(*event))),
            final(self)@.queue.len() == 0,
            step == if final(self)@.quit {
                LoopStep::Shutdown
            } else {
                LoopStep::RenderFrame
            },
    {
        self.handle_event(event);
        self.process_actions();
        if self.quit {
            LoopStep::Shutdown
        } else {
            LoopStep::RenderFrame
        }
    }
}

/// Delivery keeps the number of components; each component emits at most one
/// action; an emitted action has no successor; and only a resize of the
/// terminal makes components emit anything.
pub proof fn lemma_deliver(components: Seq<ComponentView>, action: Action)
    ensures
        deliver(components, action).0.len() == components.len(),
        deliver(components, action).1.len() <= components.len(),
        forall|k: int|
            0 <= k < deliver(components, action).1.len() ==> (#[trigger] deliver(components, action).1[k]) is ResizePtys,
        !(action is Resize) ==> deliver(components, action).1.len() == 0,
        forall|k: int|
            0 <= k < components.len() ==> (#[trigger] deliver(components, action).0[k]) == update_model(
                components[k],
                action,
            ).0,
    decreases components.len(),
{
    if components.len() > 0 {
        lemma_deliver(components.drop_last(), action);
    }
}

/// The weight of a queue of emitted actions is its length.
proof fn lemma_weight_of_emitted(emitted: Seq<Action>, n: nat)
    requires
        forall|k: int| 0 <= k < emitted.len() ==> (#[trigger] emitted[k]) is ResizePtys,
    ensures
        queue_weight(emitted, n) == emitted.len(),
    decreases emitted.len(),
{
    if emitted.len() > 0 {
        lemma_weight_of_emitted(emitted.drop_last(), n);
    }
}

/// The weight of two queues in a row is the sum of their weights.
proof fn lemma_weight_concat(first: Seq<Action>, second: Seq<Action>, n: nat)
    ensures
        queue_weight(first + second, n) == queue_weight(first, n) + queue_weight(second, n),
    decreases second.len(),
{
    if second.len() == 0 {
        assert(first + second =~= first);
    } else {
        lemma_weight_concat(first, second.drop_last(), n);
        assert((first + second).drop_last() =~= first + second.drop_last());
    }
}

/// Delivering the first queued action makes the queue lighter.
pub proof fn lemma_step_decreases(state: AppState)
    requires
        state.queue.len() > 0,
    ensures
        state.step().components.len() == state.components.len(),
        queue_weight(state.step().queue, state.components.len()) < queue_weight(
            state.queue,
            state.components.len(),
        ),
{
    let n = state.components.len();
    let action = state.queue[0];
    let emitted = deliver(state.components, action).1;
    lemma_deliver(state.components, action);
    lemma_weight_of_emitted(emitted, n);
    lemma_weight_concat(state.queue.drop_first(), emitted, n);
    lemma_weight_concat(seq![action], state.queue.drop_first(), n);
    assert(seq![action] + state.queue.drop_first() =~= state.queue);
    assert(queue_weight(seq![action], n) == action_weight(action, n)) by {
        assert(queue_weight(seq![action].drop_last(), n) == 0);
    }
}

/// Working the queue off leaves no action behind, keeps the components in
/// their places, and remembers a shutdown that was seen before.
pub proof fn law_drained_queue_is_empty(state: AppState)
    ensures
        drained(state).queue.len() == 0,
        drained(state).components.len() == state.components.len(),
        state.quit ==> drained(state).quit,
    decreases queue_weight(state.queue, state.components.len()),
{
    if state.queue.len() > 0 {
        lemma_step_decreases(state);
        law_drained_queue_is_empty(state.step());
    }
}

/// A shutdown is seen exactly when it was seen before or a quit action is
/// worked off; no component emits one.
pub proof fn law_shutdown_needs_quit(state: AppState)
    ensures
        drained(state).quit <==> (state.quit || state.queue.contains(Action::Quit)),
    decreases queue_weight(state.queue, state.components.len()),
{
    if state.queue.len() > 0 {
        lemma_step_decreases(state);
        law_drained_queue_is_empty(state.step());
        law_shutdown_needs_quit(state.step());
        let action = state.queue[0];
        let emitted = deliver(state.components, action).1;
        lemma_deliver(state.components, action);
        let next = state.step().queue;
        if next.contains(Action::Quit) {
            let k = choose|k: int| 0 <= k < next.len() && next[k] == Action::Quit;
            if k < state.queue.len() - 1 {
                assert(state.queue[k + 1] == Action::Quit);
            } else {
                assert(emitted[k - (state.queue.len() - 1)] is ResizePtys);
            }
        }
        if state.queue.contains(Action::Quit) && action != Action::Quit {
            let k = choose|k: int| 0 <= k < state.queue.len() && state.queue[k] == Action::Quit;
            assert(next[k - 1] == Action::Quit);
        }
    }
}

} // verus!
