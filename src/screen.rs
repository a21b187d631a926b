//! The screen-mode state machine: which operation a key press runs in each
//! mode, the mode that follows, and whether the collection must be saved.
use vstd::prelude::*;
use crate::app::{
    App, ScreenMode, SwitchProjectsDirection, TaskNavDirection, add_project_post, current_tasks,
    delete_task_post, nav_tasks_post, only_current_tasks_differ, project_to_cursor_manager_post,
    switch_project_post, task_to_cursor_manager_post, toggle_task_state_post, cancel_task_post,
};
use crate::collection::current_index;
use crate::editor::{CursorDirection, delete_post, insert_post, move_post};
use crate::task::TaskState;

verus! {

/// A key press, as far as the controller tells keys apart.
#[derive(Debug, PartialEq, Eq, Structural, Clone, Copy)]
pub enum Key {
    Char(char),
    Left,
    Right,
    Up,
    Down,
    Enter,
    Esc,
    Backspace,
    Other,
}

/// What the event loop does after a key press.
#[derive(Debug, PartialEq, Eq, Structural, Clone, Copy)]
pub enum Effect {
    Nothing,
    Save,
    SaveAndQuit,
}

/// `s` in mode `m`.
pub open spec fn with_mode(s: App, m: ScreenMode) -> App {
    App { screen_mode: m, ..s }
}

/// `t` is `s` but for the editor.
pub open spec fn editor_only(s: App, t: App) -> bool {
    &&& t.projects == s.projects
    &&& t.next_task_id == s.next_task_id
    &&& t.current_project_id == s.current_project_id
    &&& t.current_task_id == s.current_task_id
    &&& t.screen_mode == s.screen_mode
}

/// Back in Main with an empty editor.
pub open spec fn back_to_main(t: App) -> bool {
    &&& t.screen_mode == ScreenMode::Main
    &&& t.cursor_manager.text@.len() == 0
    &&& t.cursor_manager.cursor_position == 0
}

/// Leaving an editing mode without committing: Main, editor emptied, the
/// collection, counter and selections kept.
pub open spec fn discarded(s: App, t: App) -> bool {
    &&& back_to_main(t)
    &&& t.projects == s.projects
    &&& t.next_task_id == s.next_task_id
    &&& t.current_project_id == s.current_project_id
    &&& t.current_task_id == s.current_task_id
}

/// The editor's text became a new Todo task of the current project, with
/// the counter's identifier, and is selected.
pub open spec fn added_from_editor(s: App, t: App) -> bool {
    &&& only_current_tasks_differ(s.projects@, t.projects@)
    &&& current_tasks(t.projects@).len() == current_tasks(s.projects@).len() + 1
    &&& current_tasks(t.projects@).drop_last() == current_tasks(s.projects@)
    &&& current_tasks(t.projects@).last().id == s.next_task_id
    &&& current_tasks(t.projects@).last().project_id == s.current_project_id
    &&& current_tasks(t.projects@).last().state == TaskState::Todo
    &&& current_tasks(t.projects@).last().title@ == s.cursor_manager.text@
    &&& t.current_task_id == s.next_task_id
    &&& t.next_task_id == s.next_task_id + 1
    &&& t.current_project_id == s.current_project_id
}

/// The editor's text became the title of the selected task.
pub open spec fn retitled_from_editor(s: App, t: App) -> bool {
    &&& only_current_tasks_differ(s.projects@, t.projects@)
    &&& current_tasks(t.projects@).len() == current_tasks(s.projects@).len()
    &&& forall|k: int|
        0 <= k < current_tasks(s.projects@).len() ==> {
            let a = current_tasks(s.projects@)[k];
            let b = #[trigger] current_tasks(t.projects@)[k];
            &&& b.id == a.id
            &&& b.project_id == a.project_id
            &&& b.state == a.state
            &&& if a.id == s.current_task_id {
                b.title@ == s.cursor_manager.text@
            } else {
                b.title == a.title
            }
        }
    &&& t.next_task_id == s.next_task_id
    &&& t.current_project_id == s.current_project_id
    &&& t.current_task_id == s.current_task_id
}

/// The editor's text became the name of the current project.
pub open spec fn renamed_from_editor(s: App, t: App) -> bool {
    &&& t.projects@.len() == s.projects@.len()
    &&& forall|a: int|
        0 <= a < s.projects@.len() && a != current_index(s.projects@) ==> #[trigger] t.projects@[a]
            == s.projects@[a]
    &&& t.projects@[current_index(s.projects@)].name@ == s.cursor_manager.text@
    &&& t.projects@[current_index(s.projects@)].id == s.projects@[current_index(s.projects@)].id
    &&& t.projects@[current_index(s.projects@)].is_current
    &&& t.projects@[current_index(s.projects@)].tasks@ == s.projects@[current_index(
        s.projects@,
    )].tasks@
    &&& t.next_task_id == s.next_task_id
    &&& t.current_project_id == s.current_project_id
    &&& t.current_task_id == s.current_task_id
}

/// Whether a new project can take the identifier after the largest one.
pub open spec fn project_id_left(s: App) -> bool {
    forall|a: int| 0 <= a < s.projects@.len() ==> #[trigger] s.projects@[a].id < u32::MAX
}

/// A key press in Main.
pub open spec fn main_step(s: App, t: App, key: Key, e: Effect) -> bool {
    match key {
        Key::Left => e == Effect::Nothing && switch_project_post(
            s,
            t,
            SwitchProjectsDirection::Left,
        ),
        Key::Right => e == Effect::Nothing && switch_project_post(
            s,
            t,
            SwitchProjectsDirection::Right,
        ),
        Key::Up => e == Effect::Nothing && nav_tasks_post(s, t, TaskNavDirection::Up),
        Key::Down => e == Effect::Nothing && nav_tasks_post(s, t, TaskNavDirection::Down),
        Key::Enter => e == Effect::Nothing && toggle_task_state_post(s, t),
        Key::Char(c) => if c == 'q' {
            e == Effect::SaveAndQuit && t == s
        } else if c == 'k' {
            e == Effect::Nothing && nav_tasks_post(s, t, TaskNavDirection::Up)
        } else if c == 'j' {
            e == Effect::Nothing && nav_tasks_post(s, t, TaskNavDirection::Down)
        } else if c == 'c' {
            e == Effect::Nothing && cancel_task_post(s, t)
        } else if c == 'a' {
            e == Effect::Nothing && t == with_mode(s, ScreenMode::AddingTask)
        } else if c == 'r' {
            e == Effect::Nothing && if current_tasks(s.projects@).len() > 0 {
                task_to_cursor_manager_post(with_mode(s, ScreenMode::RenamingTask), t)
            } else {
                t == s
            }
        } else if c == 'd' {
            e == Effect::Nothing && t == with_mode(s, ScreenMode::DeletingTask)
        } else if c == 'n' {
            e == Effect::Nothing && if project_id_left(s) {
                add_project_post(with_mode(s, ScreenMode::RenamingProject), t)
            } else {
                t == s
            }
        } else if c == 'p' {
            e == Effect::Nothing && project_to_cursor_manager_post(
                with_mode(s, ScreenMode::RenamingProject),
                t,
            )
        } else {
            e == Effect::Nothing && t == s
        },
        _ => e == Effect::Nothing && t == s,
    }
}

/// A key press in an editing mode, other than Enter.
pub open spec fn editor_step(s: App, t: App, key: Key, e: Effect) -> bool {
    match key {
        Key::Esc => e == Effect::Nothing && discarded(s, t),
        Key::Char(c) => e == Effect::Nothing && editor_only(s, t) && insert_post(
            s.cursor_manager,
            t.cursor_manager,
            c,
        ),
        Key::Backspace => e == Effect::Nothing && editor_only(s, t) && delete_post(
            s.cursor_manager,
            t.cursor_manager,
        ),
        Key::Left => e == Effect::Nothing && editor_only(s, t) && move_post(
            s.cursor_manager,
            t.cursor_manager,
            CursorDirection::Left,
        ),
        Key::Right => e == Effect::Nothing && editor_only(s, t) && move_post(
            s.cursor_manager,
            t.cursor_manager,
            CursorDirection::Right,
        ),
        _ => e == Effect::Nothing && t == s,
    }
}

/// A key press while typing a new task's title. Enter adds the task; when
/// no task identifier is left it only leaves the mode.
pub open spec fn adding_step(s: App, t: App, key: Key, e: Effect) -> bool {
    match key {
        Key::Enter => if s.next_task_id < u32::MAX {
            e == Effect::Save && back_to_main(t) && added_from_editor(s, t)
        } else {
            e == Effect::Nothing && discarded(s, t)
        },
        _ => editor_step(s, t, key, e),
    }
}

/// A key press while typing the selected task's new title.
pub open spec fn renaming_task_step(s: App, t: App, key: Key, e: Effect) -> bool {
    match key {
        Key::Enter => e == Effect::Save && back_to_main(t) && retitled_from_editor(s, t),
        _ => editor_step(s, t, key, e),
    }
}

/// A key press while typing the current project's new name.
pub open spec fn renaming_project_step(s: App, t: App, key: Key, e: Effect) -> bool {
    match key {
        Key::Enter => e == Effect::Save && back_to_main(t) && renamed_from_editor(s, t),
        _ => editor_step(s, t, key, e),
    }
}

/// A key press while a deletion waits for confirmation.
pub open spec fn deleting_step(s: App, t: App, key: Key, e: Effect) -> bool {
    match key {
        Key::Char(c) => if c == 'y' {
            e == Effect::Save && delete_task_post(
                with_mode(s, ScreenMode::Main),
                t,
                s.current_task_id,
            )
        } else if c == 'n' {
            e == Effect::Nothing && t == with_mode(s, ScreenMode::Main)
        } else {
            e == Effect::Nothing && t == s
        },
        Key::Esc => e == Effect::Nothing && t == with_mode(s, ScreenMode::Main),
        _ => e == Effect::Nothing && t == s,
    }
}

/// What a key press does in mode `s.screen_mode`.
pub open spec fn key_step(s: App, t: App, key: Key, e: Effect) -> bool {
    match s.screen_mode {
        ScreenMode::Main => main_step(s, t, key, e),
        ScreenMode::AddingTask => adding_step(s, t, key, e),
        ScreenMode::RenamingTask => renaming_task_step(s, t, key, e),
        ScreenMode::RenamingProject => renaming_project_step(s, t, key, e),
        ScreenMode::DeletingTask => deleting_step(s, t, key, e),
    }
}

impl App {
    fn project_id_left_exec(&self) -> (r: bool)
        ensures
            r == project_id_left(*self),
    {
        let mut i: usize = 0;
        while i < self.projects.len()
            invariant
                0 <= i <= self.projects@.len(),
                forall|a: int| 0 <= a < i ==> #[trigger] self.projects@[a].id < u32::MAX,
            decreases self.projects@.len() - i,
        {
            if self.projects[i].id == u32::MAX {
                return false;
            }
            i = i + 1;
        }
        true
    }

    fn key_in_main(&mut self, key: Key) -> (e: Effect)
        requires
            old(self).wf(),
            old(self).screen_mode == ScreenMode::Main,
        ensures
            final(self).wf(),
            main_step(*old(self), *final(self), key, e),
    {
        match key {
            Key::Left => self.switch_project(SwitchProjectsDirection::Left),
            Key::Right => self.switch_project(SwitchProjectsDirection::Right),
            Key::Up => self.nav_tasks(TaskNavDirection::Up),
            Key::Down => self.nav_tasks(TaskNavDirection::Down),
            Key::Enter => self.toggle_task_state(),
            Key::Char(c) => {
                if c == 'q' {
                    return Effect::SaveAndQuit;
                } else if c == 'k' {
                    self.nav_tasks(TaskNavDirection::Up);
                } else if c == 'j' {
                    self.nav_tasks(TaskNavDirection::Down);
                } else if c == 'c' {
                    self.cancel_task();
                } else if c == 'a' {
                    self.screen_mode = ScreenMode::AddingTask;
                } else if c == 'r' {
                    let c = self.current_tasks_len();
                    if c > 0 {
                        self.screen_mode = ScreenMode::RenamingTask;
                        self.task_to_cursor_manager();
                    }
                } else if c == 'd' {
                    self.screen_mode = ScreenMode::DeletingTask;
                } else if c == 'n' {
                    if self.project_id_left_exec() {
                        self.screen_mode = ScreenMode::RenamingProject;
                        self.add_project();
                    }
                } else if c == 'p' {
                    self.screen_mode = ScreenMode::RenamingProject;
                    self.project_to_cursor_manager();
                }
            },
            _ => {},
        }
        Effect::Nothing
    }

    fn current_tasks_len(&self) -> (r: usize)
        requires
            self.wf(),
        ensures
            r == current_tasks(self.projects@).len(),
    {
        match self.get_current_project_tasks() {
            Some(tasks) => tasks.len(),
            None => 0,
        }
    }

    /// A key press in an editing mode, other than Enter.
    fn key_in_editor(&mut self, key: Key) -> (e: Effect)
        requires
            old(self).wf(),
            key != Key::Enter,
        ensures
            final(self).wf(),
            editor_step(*old(self), *final(self), key, e),
    {
        match key {
            Key::Esc => {
                self.screen_mode = ScreenMode::Main;
                self.cursor_manager.clear();
            },
            Key::Char(c) => self.cursor_manager.insert(c),
            Key::Backspace => self.cursor_manager.delete(),
            Key::Left => self.cursor_manager.move_cursor(CursorDirection::Left),
            Key::Right => self.cursor_manager.move_cursor(CursorDirection::Right),
            _ => {},
        }
        Effect::Nothing
    }

    /// Runs what a key press means in the current screen mode (see
    /// `key_step`) and says whether the collection must now be saved, or
    /// saved before quitting.
    pub fn handle_key(&mut self, key: Key) -> (e: Effect)
        requires
            old(self).wf(),
        ensures
            final(self).wf(),
            key_step(*old(self), *final(self), key, e),
    {
        match self.screen_mode {
            ScreenMode::Main => self.key_in_main(key),
            ScreenMode::AddingTask => {
                if key == Key::Enter {
                    let ghost s = *self;
                    let title = self.cursor_manager.validate();
                    self.screen_mode = ScreenMode::Main;
                    if self.next_task_id < u32::MAX {
                        self.add_task(title);
                        assert(current_tasks(self.projects@).drop_last() =~= current_tasks(
                            s.projects@,
                        ));
                        Effect::Save
                    } else {
                        Effect::Nothing
                    }
                } else {
                    self.key_in_editor(key)
                }
            },
            ScreenMode::RenamingTask => {
                if key == Key::Enter {
                    let title = self.cursor_manager.validate();
                    self.screen_mode = ScreenMode::Main;
                    self.rename_task(title);
                    Effect::Save
                } else {
                    self.key_in_editor(key)
                }
            },
            ScreenMode::RenamingProject => {
                if key == Key::Enter {
                    let name = self.cursor_manager.validate();
                    self.screen_mode = ScreenMode::Main;
                    self.rename_project(name);
                    Effect::Save
                } else {
                    self.key_in_editor(key)
                }
            },
            ScreenMode::DeletingTask => {
                match key {
                    Key::Char(c) => {
                        if c == 'y' {
                            self.screen_mode = ScreenMode::Main;
                            let id = self.current_task_id;
                            self.delete_task(id);
                            Effect::Save
                        } else if c == 'n' {
                            self.screen_mode = ScreenMode::Main;
                            Effect::Nothing
                        } else {
                            Effect::Nothing
                        }
                    },
                    Key::Esc => {
                        self.screen_mode = ScreenMode::Main;
                        Effect::Nothing
                    },
                    _ => Effect::Nothing,
                }
            },
        }
    }
}

} // verus!
