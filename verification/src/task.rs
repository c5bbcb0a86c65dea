//! Task records and the status machine.

use vstd::prelude::*;

verus! {

/// Lifecycle position of a task.
///
/// `Pending`, `Running` are live; the other four are terminal: no edge of the
/// status machine leaves them, only deletion removes the row.
#[derive(Clone, Copy, PartialEq, Eq, Debug, Structural)]
pub enum TaskStatus {
    Pending,
    Running,
    Stopped,
    Cancelled,
    Completed,
    Failed,
}

impl TaskStatus {
    /// A terminal status admits no further transition except deletion.
    pub open spec fn is_terminal(self) -> bool {
        match self {
            TaskStatus::Pending => false,
            TaskStatus::Running => false,
            _ => true,
        }
    }

    /// The edges of the status machine:
    /// `Pending -> Running` (dispatcher start),
    /// `Running -> Completed` (dispatcher success),
    /// `Running -> Failed` (dispatcher failure),
    /// `Pending -> Stopped` and `Running -> Stopped` (stop event).
    pub open spec fn spec_is_edge(self, to: TaskStatus) -> bool {
        ||| (self == TaskStatus::Pending && to == TaskStatus::Running)
        ||| (self == TaskStatus::Running && to == TaskStatus::Completed)
        ||| (self == TaskStatus::Running && to == TaskStatus::Failed)
        ||| (self == TaskStatus::Pending && to == TaskStatus::Stopped)
        ||| (self == TaskStatus::Running && to == TaskStatus::Stopped)
    }

    /// Decides whether `self -> to` is an edge of the status machine.
    pub fn is_edge(self, to: TaskStatus) -> (r: bool)
        ensures
            r == self.spec_is_edge(to),
    {
        match (self, to) {
            (TaskStatus::Pending, TaskStatus::Running) => true,
            (TaskStatus::Running, TaskStatus::Completed) => true,
            (TaskStatus::Running, TaskStatus::Failed) => true,
            (TaskStatus::Pending, TaskStatus::Stopped) => true,
            (TaskStatus::Running, TaskStatus::Stopped) => true,
            _ => false,
        }
    }

    /// The exact text that stands for this status in the store and in JSON.
    pub open spec fn spec_name(self) -> Seq<char> {
        match self {
            TaskStatus::Pending => "Pending"@,
            TaskStatus::Running => "Running"@,
            TaskStatus::Stopped => "Stopped"@,
            TaskStatus::Cancelled => "Cancelled"@,
            TaskStatus::Completed => "Completed"@,
            TaskStatus::Failed => "Failed"@,
        }
    }

    /// Renders the status as its stored text.
    pub fn name(self) -> (r: &'static str)
        ensures
            r@ == self.spec_name(),
    {
        match self {
            TaskStatus::Pending => "Pending",
            TaskStatus::Running => "Running",
            TaskStatus::Stopped => "Stopped",
            TaskStatus::Cancelled => "Cancelled",
            TaskStatus::Completed => "Completed",
            TaskStatus::Failed => "Failed",
        }
    }

    /// Parses stored status text; `None` exactly when the text names no status.
    pub fn from_name(s: &String) -> (r: Option<TaskStatus>)
        ensures
            match r {
                Some(st) => s@ == st.spec_name(),
                None => forall|st: TaskStatus| s@ != st.spec_name(),
            },
    {
        if *s == "Pending".to_owned() {
            Some(TaskStatus::Pending)
        } else if *s == "Running".to_owned() {
            Some(TaskStatus::Running)
        } else if *s == "Stopped".to_owned() {
            Some(TaskStatus::Stopped)
        } else if *s == "Cancelled".to_owned() {
            Some(TaskStatus::Cancelled)
        } else if *s == "Completed".to_owned() {
            Some(TaskStatus::Completed)
        } else if *s == "Failed".to_owned() {
            Some(TaskStatus::Failed)
        } else {
            proof {
                assert forall|st: TaskStatus| s@ != st.spec_name() by {
                    match st {
                        TaskStatus::Pending => assert(s@ != TaskStatus::Pending.spec_name()),
                        TaskStatus::Running => assert(s@ != TaskStatus::Running.spec_name()),
                        TaskStatus::Stopped => assert(s@ != TaskStatus::Stopped.spec_name()),
                        TaskStatus::Cancelled => assert(s@ != TaskStatus::Cancelled.spec_name()),
                        TaskStatus::Completed => assert(s@ != TaskStatus::Completed.spec_name()),
                        TaskStatus::Failed => assert(s@ != TaskStatus::Failed.spec_name()),
                    }
                }
            }
            None
        }
    }
}

/// A durable task record, one row of the store.
pub struct Task {
    pub id: i64,
    pub created_at: String,
    pub creator: String,
    pub branch: String,
    pub svn_merge_number: String,
    pub status: TaskStatus,
}

/// The mathematical value of a [`Task`]: its fields as plain sequences.
pub ghost struct TaskView {
    pub id: int,
    pub created_at: Seq<char>,
    pub creator: Seq<char>,
    pub branch: Seq<char>,
    pub svn_merge_number: Seq<char>,
    pub status: TaskStatus,
}

impl View for Task {
    type V = TaskView;

    open spec fn view(&self) -> TaskView {
        TaskView {
            id: self.id as int,
            created_at: self.created_at@,
            creator: self.creator@,
            branch: self.branch@,
            svn_merge_number: self.svn_merge_number@,
            status: self.status,
        }
    }
}

impl Clone for Task {
    fn clone(&self) -> (r: Self)
        ensures
            r@ == self@,
    {
        Task {
            id: self.id,
            created_at: self.created_at.clone(),
            creator: self.creator.clone(),
            branch: self.branch.clone(),
            svn_merge_number: self.svn_merge_number.clone(),
            status: self.status,
        }
    }
}

/// The input record for creating a task: no id, no status yet.
pub struct NewTask {
    pub creator: String,
    pub branch: String,
    pub svn_merge_number: String,
}

/// The mathematical value of a [`NewTask`].
pub ghost struct NewTaskView {
    pub creator: Seq<char>,
    pub branch: Seq<char>,
    pub svn_merge_number: Seq<char>,
}

impl View for NewTask {
    type V = NewTaskView;

    open spec fn view(&self) -> NewTaskView {
        NewTaskView {
            creator: self.creator@,
            branch: self.branch@,
            svn_merge_number: self.svn_merge_number@,
        }
    }
}

impl Clone for NewTask {
    fn clone(&self) -> (r: Self)
        ensures
            r@ == self@,
    {
        NewTask {
            creator: self.creator.clone(),
            branch: self.branch.clone(),
            svn_merge_number: self.svn_merge_number.clone(),
        }
    }
}

} // verus!
