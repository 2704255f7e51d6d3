//! The values that the host and the dashboard exchange about tasks.

use std::collections::HashMap;
use vstd::prelude::*;

verus! {

/// An arbitrary JSON value of `serde_json`. The dashboard carries such values
/// for the host and never looks inside them.
#[verifier::external_type_specification]
#[verifier::external_body]
pub struct ExJsonValue(serde_json::Value);

/// What a task builds: a target of a project, in an optional configuration.
#[derive(Clone, Debug, PartialEq, Eq)]
pub struct TaskTarget {
    pub project: String,
    pub target: String,
    pub configuration: Option<String>,
}

/// Parameters that override the target's defaults. They are opaque to the
/// dashboard.
#[derive(Clone, Debug, PartialEq, Eq)]
pub struct TaskOverrides {}

/// Identity and descriptor of one task.
///
/// Times are whole milliseconds since the Unix epoch.
#[derive(Clone, Debug, PartialEq, Eq)]
pub struct Task {
    pub id: String,
    pub target: TaskTarget,
    pub overrides: TaskOverrides,
    pub outputs: Vec<String>,
    pub project_root: Option<String>,
    pub hash: Option<String>,
    pub start_time: Option<u64>,
    pub end_time: Option<u64>,
    pub cache: Option<bool>,
    pub parallelism: bool,
    pub continuous: Option<bool>,
}

/// The outcome of one task as the host reports it. `status` is a wire name of
/// a `TaskStatus`.
#[derive(Clone, Debug, PartialEq, Eq)]
pub struct TaskResult {
    pub task: Task,
    pub status: String,
    pub code: i32,
    pub terminal_output: Option<String>,
}

/// What the host says about a batch of tasks that it ends together. The
/// dashboard takes it and does not act on it.
#[derive(Clone, Copy, Debug, PartialEq, Eq)]
pub struct TaskMetadata {
    pub group_id: i32,
}

/// Exit code and captured terminal output of a finished execution.
#[derive(Clone, Debug, PartialEq, Eq)]
pub struct TaskOutput {
    pub code: i32,
    pub terminal_output: String,
}

/// One shell command of a task.
#[derive(Clone, Debug, PartialEq, Eq)]
pub struct NormalizedCommandOptions {
    pub command: String,
    pub forward_all_args: Option<bool>,
}

/// A string that the host waits for in the output of a task, and whether it
/// has been seen.
#[derive(Clone, Debug, PartialEq, Eq)]
pub struct ReadyWhenStatus {
    pub string_to_match: String,
    pub found: bool,
}

/// The `command` option as the user wrote it: one command line or several.
#[derive(Clone, Debug, PartialEq, Eq)]
pub enum CommandInput {
    Single(String),
    Many(Vec<String>),
}

/// The options of a run-commands task after the host has normalized them.
///
/// The dashboard reads `commands`, `cwd` and `env`; everything else is the
/// host's own and is carried along untouched.
#[derive(Clone, Debug)]
pub struct NormalizedRunCommandsOptions {
    pub commands: Vec<NormalizedCommandOptions>,
    pub unknown_options: Option<HashMap<String, serde_json::Value>>,
    pub parsed_args: HashMap<String, serde_json::Value>,
    pub unparsed_command_args: Option<HashMap<String, serde_json::Value>>,
    pub args: Option<String>,
    pub ready_when_status: Vec<ReadyWhenStatus>,
    pub command: Option<CommandInput>,
    pub color: Option<bool>,
    pub parallel: Option<bool>,
    pub ready_when: Option<Vec<String>>,
    pub cwd: Option<String>,
    pub env: Option<HashMap<String, String>>,
    pub forward_all_args: Option<bool>,
    pub env_file: Option<String>,
    pub unparsed: Vec<String>,
    pub use_pty: Option<bool>,
    pub stream_output: Option<bool>,
    pub tty: Option<bool>,
}

} // verus!
