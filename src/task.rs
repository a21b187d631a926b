use vstd::prelude::*;

verus! {

/// Lifecycle of a task.
#[derive(Debug, PartialEq, Eq, Structural, Clone, Copy)]
pub enum TaskState {
    Todo,
    Completed,
    Canceled,
}

/// The state reached by toggling: Todo becomes Completed, anything else
/// becomes Todo.
pub open spec fn toggled(s: TaskState) -> TaskState {
    match s {
        TaskState::Todo => TaskState::Completed,
        TaskState::Completed => TaskState::Todo,
        TaskState::Canceled => TaskState::Todo,
    }
}

/// The state reached by canceling: always Canceled.
pub open spec fn canceled(s: TaskState) -> TaskState {
    TaskState::Canceled
}

/// Toggling a Todo task twice leaves it Todo; toggling a Canceled task once
/// makes it Todo, twice makes it Completed.
pub proof fn toggle_twice(s: TaskState)
    ensures
        s == TaskState::Todo ==> toggled(toggled(s)) == TaskState::Todo,
        s == TaskState::Canceled ==> toggled(s) == TaskState::Todo,
        s == TaskState::Canceled ==> toggled(toggled(s)) == TaskState::Completed,
{
}

/// `t` with its state replaced.
pub open spec fn with_state(t: Task, s: TaskState) -> Task {
    Task { state: s, ..t }
}

/// `t` with its title replaced.
pub open spec fn with_title(t: Task, title: String) -> Task {
    Task { title: title, ..t }
}

/// A titled unit of work owned by one project.
pub struct Task {
    pub id: u32,
    pub project_id: u32,
    pub state: TaskState,
    pub title: String,
}

impl Task {
    /// A new task starts as Todo.
    pub fn new(id: u32, project_id: u32, title: String) -> (t: Task)
        ensures
            t.id == id,
            t.project_id == project_id,
            t.state == TaskState::Todo,
            t.title == title,
    {
        Task { id, project_id, state: TaskState::Todo, title }
    }

    pub fn toggle_state(&mut self)
        ensures
            final(self).state == toggled(old(self).state),
            final(self).id == old(self).id,
            final(self).project_id == old(self).project_id,
            final(self).title == old(self).title,
    {
        match self.state {
            TaskState::Todo => self.state = TaskState::Completed,
            TaskState::Canceled => self.state = TaskState::Todo,
            TaskState::Completed => self.state = TaskState::Todo,
        }
    }

    pub fn cancel(&mut self)
        ensures
            final(self).state == canceled(old(self).state),
            final(self).id == old(self).id,
            final(self).project_id == old(self).project_id,
            final(self).title == old(self).title,
    {
        match self.state {
            TaskState::Canceled => {},
            _ => self.state = TaskState::Canceled,
        }
    }

    /// Replaces the title verbatim.
    pub fn rename(&mut self, new_title: String)
        ensures
            final(self).title == new_title,
            final(self).id == old(self).id,
            final(self).project_id == old(self).project_id,
            final(self).state == old(self).state,
    {
        self.title = new_title;
    }
}

} // verus!
