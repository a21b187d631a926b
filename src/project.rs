use vstd::prelude::*;
use crate::task::{Task, TaskState, toggled, with_state, with_title};

verus! {

/// Whether some task of `tasks` has identifier `id`.
pub open spec fn has_task(tasks: Seq<Task>, id: u32) -> bool {
    exists|k: int| 0 <= k < tasks.len() && #[trigger] tasks[k].id == id
}

/// `t` toggled when its identifier is `id`.
pub open spec fn toggle_if(t: Task, id: u32) -> Task {
    if t.id == id {
        with_state(t, toggled(t.state))
    } else {
        t
    }
}

/// `t` canceled when its identifier is `id`.
pub open spec fn cancel_if(t: Task, id: u32) -> Task {
    if t.id == id {
        with_state(t, TaskState::Canceled)
    } else {
        t
    }
}

/// `t` retitled when its identifier is `id`.
pub open spec fn retitle_if(t: Task, id: u32, title: String) -> Task {
    if t.id == id {
        with_title(t, title)
    } else {
        t
    }
}

/// `tasks` without the tasks whose identifier is `id`, order kept.
pub open spec fn without_task(tasks: Seq<Task>, id: u32) -> Seq<Task> {
    tasks.filter(|t: Task| t.id != id)
}

/// A named container of tasks, kept in insertion order.
pub struct Project {
    pub id: u32,
    pub name: String,
    pub is_current: bool,
    pub tasks: Vec<Task>,
}

impl Project {
    /// A new project is not current and holds no task.
    pub fn new(id: u32, name: String) -> (p: Project)
        ensures
            p.id == id,
            p.name == name,
            !p.is_current,
            p.tasks@.len() == 0,
    {
        Project { id, name, is_current: false, tasks: Vec::new() }
    }

    pub fn toggle_current(&mut self)
        ensures
            final(self).is_current == !old(self).is_current,
            final(self).id == old(self).id,
            final(self).name == old(self).name,
            final(self).tasks@ == old(self).tasks@,
    {
        self.is_current = !self.is_current;
    }

    /// Appends a new Todo task with the given identifier and title.
    pub fn add_task(&mut self, id: u32, title: String)
        ensures
            final(self).tasks@ == old(self).tasks@.push(
                Task { id: id, project_id: old(self).id, state: TaskState::Todo, title: title },
            ),
            final(self).id == old(self).id,
            final(self).name == old(self).name,
            final(self).is_current == old(self).is_current,
    {
        let t = Task::new(id, self.id, title);
        self.tasks.push(t);
    }

    /// Removes every task with identifier `id`; nothing happens if there is none.
    pub fn delete_task(&mut self, id: u32)
        ensures
            final(self).tasks@ == without_task(old(self).tasks@, id),
            final(self).id == old(self).id,
            final(self).name == old(self).name,
            final(self).is_current == old(self).is_current,
    {
        let ghost pred = |t: Task| t.id != id;
        let ghost orig = self.tasks@;
        let ghost mut j: int = 0;
        let mut i: usize = 0;
        while i < self.tasks.len()
            invariant
                0 <= i <= self.tasks@.len(),
                0 <= j <= orig.len(),
                pred == (|t: Task| t.id != id),
                self.tasks@.len() - i == orig.len() - j,
                self.tasks@.subrange(0, i as int) == orig.subrange(0, j).filter(pred),
                self.tasks@.subrange(i as int, self.tasks@.len() as int) == orig.subrange(
                    j,
                    orig.len() as int,
                ),
                self.id == old(self).id,
                self.name == old(self).name,
                self.is_current == old(self).is_current,
            decreases self.tasks@.len() - i,
        {
            let ghost before = self.tasks@;
            proof {
                assert(orig.subrange(0, j + 1).drop_last() =~= orig.subrange(0, j));
                assert(orig[j] == before[i as int]) by {
                    assert(before.subrange(i as int, before.len() as int)[0] == before[i as int]);
                }
                assert(orig.subrange(0, j + 1).filter(pred) == if pred(orig[j]) {
                    orig.subrange(0, j).filter(pred).push(orig[j])
                } else {
                    orig.subrange(0, j).filter(pred)
                }) by {
                    reveal(Seq::filter);
                    assert(orig.subrange(0, j + 1).last() == orig[j]);
                }
            }
            if self.tasks[i].id == id {
                self.tasks.remove(i);
                proof {
                    assert(self.tasks@.subrange(0, i as int) =~= before.subrange(0, i as int));
                    let ghost rest = self.tasks@.subrange(i as int, self.tasks@.len() as int);
                    let ghost tail = orig.subrange(j + 1, orig.len() as int);
                    assert forall|k: int| 0 <= k < rest.len() implies #[trigger] rest[k] == tail[k] by {
                        assert(before.subrange(i as int, before.len() as int)[1 + k] == before[i
                            + 1 + k]);
                        assert(orig.subrange(j, orig.len() as int)[1 + k] == orig[j + 1 + k]);
                    }
                    assert(self.tasks@.subrange(i as int, self.tasks@.len() as int) =~= orig.subrange(
                        j + 1,
                        orig.len() as int,
                    ));
                }
            } else {
                i = i + 1;
                proof {
                    let ghost rest = self.tasks@.subrange(i as int, self.tasks@.len() as int);
                    let ghost tail = orig.subrange(j + 1, orig.len() as int);
                    assert forall|k: int| 0 <= k < rest.len() implies #[trigger] rest[k] == tail[k] by {
                        assert(before.subrange(i - 1, before.len() as int)[1 + k] == before[i
                            + k]);
                        assert(orig.subrange(j, orig.len() as int)[1 + k] == orig[j + 1 + k]);
                    }
                    assert(self.tasks@.subrange(0, i as int) =~= before.subrange(0, i - 1).push(
                        before[i - 1],
                    ));
                    assert(self.tasks@.subrange(i as int, self.tasks@.len() as int) =~= orig.subrange(
                        j + 1,
                        orig.len() as int,
                    ));
                }
            }
            proof {
                j = j + 1;
            }
        }
        proof {
            assert(orig.subrange(0, j) =~= orig);
            assert(self.tasks@.subrange(0, i as int) =~= self.tasks@);
        }
    }

    /// Toggles the state of every task with identifier `id`.
    pub fn toggle_task_state(&mut self, id: u32)
        ensures
            final(self).tasks@.len() == old(self).tasks@.len(),
            forall|k: int|
                0 <= k < old(self).tasks@.len() ==> #[trigger] final(self).tasks@[k] == toggle_if(old(self).tasks@[k], id),
            final(self).id == old(self).id,
            final(self).name == old(self).name,
            final(self).is_current == old(self).is_current,
    {
        let ghost orig = self.tasks@;
        let mut i: usize = 0;
        while i < self.tasks.len()
            invariant
                0 <= i <= self.tasks@.len(),
                self.tasks@.len() == orig.len(),
                forall|k: int|
                    0 <= k < i ==> #[trigger] self.tasks@[k] == if orig[k].id == id {
                        with_state(orig[k], toggled(orig[k].state))
                    } else {
                        orig[k]
                    },
                forall|k: int| i <= k < orig.len() ==> self.tasks@[k] == orig[k],
                self.id == old(self).id,
                self.name == old(self).name,
                self.is_current == old(self).is_current,
            decreases orig.len() - i,
        {
            if self.tasks[i].id == id {
                self.tasks[i].toggle_state();
            }
            i = i + 1;
        }
    }

    /// Cancels every task with identifier `id`.
    pub fn cancel_task(&mut self, id: u32)
        ensures
            final(self).tasks@.len() == old(self).tasks@.len(),
            forall|k: int|
                0 <= k < old(self).tasks@.len() ==> #[trigger] final(self).tasks@[k] == cancel_if(old(self).tasks@[k], id),
            final(self).id == old(self).id,
            final(self).name == old(self).name,
            final(self).is_current == old(self).is_current,
    {
        let ghost orig = self.tasks@;
        let mut i: usize = 0;
        while i < self.tasks.len()
            invariant
                0 <= i <= self.tasks@.len(),
                self.tasks@.len() == orig.len(),
                forall|k: int|
                    0 <= k < i ==> #[trigger] self.tasks@[k] == if orig[k].id == id {
                        with_state(orig[k], TaskState::Canceled)
                    } else {
                        orig[k]
                    },
                forall|k: int| i <= k < orig.len() ==> self.tasks@[k] == orig[k],
                self.id == old(self).id,
                self.name == old(self).name,
                self.is_current == old(self).is_current,
            decreases orig.len() - i,
        {
            if self.tasks[i].id == id {
                self.tasks[i].cancel();
            }
            i = i + 1;
        }
    }

    /// Gives every task with identifier `id` the title `new_title`.
    pub fn rename_task(&mut self, id: u32, new_title: String)
        ensures
            final(self).tasks@.len() == old(self).tasks@.len(),
            forall|k: int|
                0 <= k < old(self).tasks@.len() ==> #[trigger] final(self).tasks@[k] == retitle_if(old(self).tasks@[k], id, new_title),
            final(self).id == old(self).id,
            final(self).name == old(self).name,
            final(self).is_current == old(self).is_current,
    {
        let ghost orig = self.tasks@;
        let mut i: usize = 0;
        while i < self.tasks.len()
            invariant
                0 <= i <= self.tasks@.len(),
                self.tasks@.len() == orig.len(),
                forall|k: int|
                    0 <= k < i ==> #[trigger] self.tasks@[k] == if orig[k].id == id {
                        with_title(orig[k], new_title)
                    } else {
                        orig[k]
                    },
                forall|k: int| i <= k < orig.len() ==> self.tasks@[k] == orig[k],
                self.id == old(self).id,
                self.name == old(self).name,
                self.is_current == old(self).is_current,
            decreases orig.len() - i,
        {
            if self.tasks[i].id == id {
                self.tasks[i].rename(new_title.clone());
            }
            i = i + 1;
        }
    }

    /// Replaces the name verbatim.
    pub fn rename(&mut self, new_name: String)
        ensures
            final(self).name == new_name,
            final(self).id == old(self).id,
            final(self).is_current == old(self).is_current,
            final(self).tasks@ == old(self).tasks@,
    {
        self.name = new_name;
    }
}

} // verus!
