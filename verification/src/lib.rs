//! Core of an interactive terminal dashboard that supervises build and test
//! tasks.
//!
//! The crate holds what the dashboard decides: the status of every task and
//! the transitions between statuses ([`status`], [`tasks_list`]), the order in
//! which the rows are shown ([`row_order`]), the record of each execution in a
//! pseudo-terminal ([`pty`]) and the size of the pseudo-terminals
//! ([`terminal_pane`]), the loop that turns terminal events into actions and
//! delivers them to the components ([`app`]), the operations that a host
//! calls and the handle of a running task ([`lifecycle`]), and the registry
//! of the tasks that are running ([`running_tasks_service`]).
//!
//! The crate performs no input or output. Its caller spawns the
//! subprocesses, reads the terminal, keeps the registry on disk and draws the
//! frames, and tells the core what happened.

pub mod app;
pub mod lifecycle;
pub mod pty;
pub mod row_order;
pub mod running_tasks_service;
pub mod status;
pub mod task;
pub mod tasks_list;
pub mod terminal_pane;
