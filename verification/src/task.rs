//! Task metadata: the status state machine and the persisted task record.

use vstd::prelude::*;

verus! {

/// Lifecycle status of a crawl task.
///
/// A task moves only forward: `Idle` to `Running` to one of the two terminal
/// states, `Finished` or `Stopped`.
#[derive(Clone, Copy, PartialEq, Eq, Structural, Debug)]
pub enum TaskStatus {
    Idle,
    Running,
    Finished,
    Stopped,
}

impl TaskStatus {
    /// Whether this status is terminal: no further transition occurs within
    /// one run.
    pub open spec fn is_terminal(self) -> bool {
        self == TaskStatus::Finished || self == TaskStatus::Stopped
    }

    /// The display name of the status.
    pub fn to_string(&self) -> (r: String)
        ensures
            *self == TaskStatus::Idle ==> r@ == "Idle"@,
            *self == TaskStatus::Running ==> r@ == "Running"@,
            *self == TaskStatus::Finished ==> r@ == "Finished"@,
            *self == TaskStatus::Stopped ==> r@ == "Stopped"@,
    {
        match self {
            TaskStatus::Idle => String::from_str("Idle"),
            TaskStatus::Running => String::from_str("Running"),
            TaskStatus::Finished => String::from_str("Finished"),
            TaskStatus::Stopped => String::from_str("Stopped"),
        }
    }
}

/// The persisted record of one crawl task.
///
/// `progress` counts completed top-level seed URLs, not fetched pages: one
/// increment means one seed's entire recursive subtree has been processed.
pub struct TaskInfo {
    pub id: u32,
    pub name: String,
    pub progress: u32,
    pub deep: u32,
    pub status: TaskStatus,
    pub created_at: Option<String>,
    pub ended_at: Option<String>,
}

impl TaskInfo {
    /// The record's internal consistency: a timestamp marks the end of the
    /// task exactly when the task has reached a terminal status.
    pub open spec fn wf(self) -> bool {
        self.ended_at is Some <==> self.status.is_terminal()
    }
}

impl Clone for TaskInfo {
    fn clone(&self) -> (r: Self)
        ensures
            r == *self,
    {
        TaskInfo {
            id: self.id,
            name: self.name.clone(),
            progress: self.progress,
            deep: self.deep,
            status: *self.status_ref(),
            created_at: clone_opt_string(&self.created_at),
            ended_at: clone_opt_string(&self.ended_at),
        }
    }
}

impl TaskInfo {
    /// Borrow the status field.
    fn status_ref(&self) -> (r: &TaskStatus)
        ensures
            *r == self.status,
    {
        &self.status
    }
}

/// Clone an optional string, keeping its value.
pub fn clone_opt_string(s: &Option<String>) -> (r: Option<String>)
    ensures
        r == *s,
{
    match s {
        Some(v) => Some(v.clone()),
        None => None,
    }
}

} // verus!
