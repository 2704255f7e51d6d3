//! The lifecycle status of a task and the wire names under which the host
//! reports an outcome.

use vstd::prelude::*;

verus! {

/// Where a task stands in its run.
///
/// A task starts as `Pending`, becomes `InProgress` when the host begins to
/// execute it, and ends in exactly one of the remaining variants. An ended
/// task is never revisited during the same run.
#[derive(Clone, Copy, Debug, PartialEq, Eq, Structural)]
pub enum TaskStatus {
    Pending,
    InProgress,
    LocalCache,
    LocalCacheKeptExisting,
    RemoteCache,
    Success,
    Failure,
    Skipped,
    Stopped,
}

/// Why a status string was turned down.
#[derive(Clone, Copy, Debug, PartialEq, Eq, Structural)]
pub enum StatusError {
    /// The string names no outcome that a host can report.
    Unknown,
}

/// The outcome that a wire name stands for, if any.
///
/// Only outcomes have a wire name: a host never reports `Pending` or
/// `InProgress` as a result. Names are matched exactly.
pub open spec fn status_of_name(name: Seq<char>) -> Option<TaskStatus> {
    if name == "success"@ {
        Some(TaskStatus::Success)
    } else if name == "failure"@ {
        Some(TaskStatus::Failure)
    } else if name == "skipped"@ {
        Some(TaskStatus::Skipped)
    } else if name == "stopped"@ {
        Some(TaskStatus::Stopped)
    } else if name == "local-cache-kept-existing"@ {
        Some(TaskStatus::LocalCacheKeptExisting)
    } else if name == "local-cache"@ {
        Some(TaskStatus::LocalCache)
    } else if name == "remote-cache"@ {
        Some(TaskStatus::RemoteCache)
    } else {
        None
    }
}

impl TaskStatus {
    /// True for the three outcomes that replay a stored result instead of
    /// running a subprocess.
    pub open spec fn is_cache(self) -> bool {
        self == TaskStatus::LocalCache || self == TaskStatus::LocalCacheKeptExisting || self
            == TaskStatus::RemoteCache
    }

    /// True once the task has ended, by whatever path.
    pub open spec fn is_terminal(self) -> bool {
        self != TaskStatus::Pending && self != TaskStatus::InProgress
    }

    /// Position of the status among the row groups of the task list: running
    /// tasks first, then the ones still waiting, then ended ones in the order
    /// failure, success, the cache hits, skipped, stopped.
    pub open spec fn spec_rank(self) -> nat {
        match self {
            TaskStatus::InProgress => 0,
            TaskStatus::Pending => 1,
            TaskStatus::Failure => 2,
            TaskStatus::Success => 3,
            TaskStatus::LocalCache => 4,
            TaskStatus::LocalCacheKeptExisting => 5,
            TaskStatus::RemoteCache => 6,
            TaskStatus::Skipped => 7,
            TaskStatus::Stopped => 8,
        }
    }

    /// Tells whether the status is one of the cache outcomes.
    pub fn is_cache_status(self) -> (r: bool)
        ensures
            r == self.is_cache(),
    {
        match self {
            TaskStatus::LocalCache | TaskStatus::LocalCacheKeptExisting | TaskStatus::RemoteCache => true,
            _ => false,
        }
    }

    /// Tells whether the task has ended.
    pub fn is_terminal_status(self) -> (r: bool)
        ensures
            r == self.is_terminal(),
    {
        match self {
            TaskStatus::Pending | TaskStatus::InProgress => false,
            _ => true,
        }
    }

    /// The position of the status among the row groups of the task list.
    pub fn rank(self) -> (r: u8)
        ensures
            r == self.spec_rank(),
            r <= 8,
    {
        match self {
            TaskStatus::InProgress => 0,
            TaskStatus::Pending => 1,
            TaskStatus::Failure => 2,
            TaskStatus::Success => 3,
            TaskStatus::LocalCache => 4,
            TaskStatus::LocalCacheKeptExisting => 5,
            TaskStatus::RemoteCache => 6,
            TaskStatus::Skipped => 7,
            TaskStatus::Stopped => 8,
        }
    }

    /// Reads an outcome from its wire name.
    ///
    /// Returns the outcome exactly when the name is one of the seven wire
    /// names, and `StatusError::Unknown` for every other string.
    pub fn from_str(name: &str) -> (r: Result<TaskStatus, StatusError>)
        ensures
            match status_of_name(name@) {
                Some(status) => r == Ok::<TaskStatus, StatusError>(status),
                None => r == Err::<TaskStatus, StatusError>(StatusError::Unknown),
            },
    {
        let owned = name.to_owned();
        if owned == "success".to_owned() {
            Ok(TaskStatus::Success)
        } else if owned == "failure".to_owned() {
            Ok(TaskStatus::Failure)
        } else if owned == "skipped".to_owned() {
            Ok(TaskStatus::Skipped)
        } else if owned == "stopped".to_owned() {
            Ok(TaskStatus::Stopped)
        } else if owned == "local-cache-kept-existing".to_owned() {
            Ok(TaskStatus::LocalCacheKeptExisting)
        } else if owned == "local-cache".to_owned() {
            Ok(TaskStatus::LocalCache)
        } else if owned == "remote-cache".to_owned() {
            Ok(TaskStatus::RemoteCache)
        } else {
            Err(StatusError::Unknown)
        }
    }

    /// The wire name of an outcome; `None` for `Pending` and `InProgress`.
    pub fn wire_name(self) -> (r: Option<String>)
        ensures
            r is Some <==> self.is_terminal(),
            r is Some ==> status_of_name(r->Some_0@) == Some(self),
    {
        proof {
            lemma_wire_names_differ();
        }
        match self {
            TaskStatus::Pending | TaskStatus::InProgress => None,
            TaskStatus::Success => Some("success".to_owned()),
            TaskStatus::Failure => Some("failure".to_owned()),
            TaskStatus::Skipped => Some("skipped".to_owned()),
            TaskStatus::Stopped => Some("stopped".to_owned()),
            TaskStatus::LocalCacheKeptExisting => Some("local-cache-kept-existing".to_owned()),
            TaskStatus::LocalCache => Some("local-cache".to_owned()),
            TaskStatus::RemoteCache => Some("remote-cache".to_owned()),
        }
    }
}

/// The seven wire names are pairwise different strings.
pub proof fn lemma_wire_names_differ()
    ensures
        status_of_name("success"@) == Some(TaskStatus::Success),
        status_of_name("failure"@) == Some(TaskStatus::Failure),
        status_of_name("skipped"@) == Some(TaskStatus::Skipped),
        status_of_name("stopped"@) == Some(TaskStatus::Stopped),
        status_of_name("local-cache-kept-existing"@) == Some(TaskStatus::LocalCacheKeptExisting),
        status_of_name("local-cache"@) == Some(TaskStatus::LocalCache),
        status_of_name("remote-cache"@) == Some(TaskStatus::RemoteCache),
{
    reveal_strlit("success");
    reveal_strlit("failure");
    reveal_strlit("skipped");
    reveal_strlit("stopped");
    reveal_strlit("local-cache-kept-existing");
    reveal_strlit("local-cache");
    reveal_strlit("remote-cache");
    assert("success"@[1] == 'u' && "failure"@[1] == 'a' && "skipped"@[1] == 'k' && "stopped"@[1] == 't');
    assert("local-cache-kept-existing"@.len() == 25 && "local-cache"@.len() == 11 && "remote-cache"@.len() == 12);
}

/// Every string that reads as an outcome reads as an ended one.
pub proof fn lemma_named_status_is_terminal(name: Seq<char>)
    ensures
        status_of_name(name) is Some ==> status_of_name(name)->Some_0.is_terminal(),
{
}

} // verus!
