//! The controller: owns the collection and the editor, and keeps the current
//! project and current task selections consistent across every operation.
use vstd::prelude::*;
use crate::collection::{
    collection_is_valid, current_index, ids_of, is_current_at, is_task_pos, lemma_current_index,
    distinct_ids, lemma_push_task, lemma_replace_tasks, lemma_same_flags, lemma_same_ids,
    lemma_without_task, one_current, project_ids, same_flag, same_flags, same_ids, task_ids_below,
    valid_collection,
};
use crate::editor::CursorManager;
use crate::ids::{
    has_above, has_below, is_max, is_min, is_next_above, is_next_below, max_id, min_id,
    next_above, next_below,
};
use crate::project::{Project, cancel_if, retitle_if, toggle_if, without_task};
use crate::task::{Task, TaskState};

verus! {

pub enum SwitchProjectsDirection {
    Left,
    Right,
}

pub enum TaskNavDirection {
    Up,
    Down,
}

/// Which operations the event loop may invoke next.
#[derive(Debug, PartialEq, Eq, Structural, Clone, Copy)]
pub enum ScreenMode {
    Main,
    AddingTask,
    RenamingTask,
    RenamingProject,
    DeletingTask,
}

pub struct App {
    pub projects: Vec<Project>,
    pub next_task_id: u32,
    pub current_project_id: u32,
    pub current_task_id: u32,
    pub screen_mode: ScreenMode,
    pub cursor_manager: CursorManager,
}

/// The tasks of the project marked current.
pub open spec fn current_tasks(ps: Seq<Project>) -> Seq<Task> {
    ps[current_index(ps)].tasks@
}

/// The selection a project starts with: its lowest task identifier, or 0
/// when it has no task.
pub open spec fn is_first_selection(tasks: Seq<Task>, r: u32) -> bool {
    if tasks.len() == 0 {
        r == 0
    } else {
        is_min(ids_of(tasks), r)
    }
}

/// A selection that resolves: an identifier of `tasks`, or 0 when there is
/// no task.
pub open spec fn selection_resolves(tasks: Seq<Task>, cur: u32) -> bool {
    if tasks.len() == 0 {
        cur == 0
    } else {
        ids_of(tasks).contains(cur)
    }
}

/// The collection created when nothing usable was loaded.
pub open spec fn is_seed(ps: Seq<Project>) -> bool {
    &&& ps.len() == 2
    &&& ps[0].id == 1 && ps[0].name@ == "Welcome"@ && ps[0].is_current
    &&& ps[0].tasks@.len() == 2
    &&& ps[0].tasks@[0].id == 1 && ps[0].tasks@[0].project_id == 1
    &&& ps[0].tasks@[0].state == TaskState::Todo
    &&& ps[0].tasks@[0].title@ == "Welcome in tuido"@
    &&& ps[0].tasks@[1].id == 2 && ps[0].tasks@[1].project_id == 1
    &&& ps[0].tasks@[1].state == TaskState::Todo
    &&& ps[0].tasks@[1].title@ == "You'll love tuido"@
    &&& ps[1].id == 2 && ps[1].name@ == "Other Project"@ && !ps[1].is_current
    &&& ps[1].tasks@.len() == 1
    &&& ps[1].tasks@[0].id == 3 && ps[1].tasks@[0].project_id == 2
    &&& ps[1].tasks@[0].state == TaskState::Todo
    &&& ps[1].tasks@[0].title@ == "You can have multiple projects"@
}

/// The collection the controller starts from: the loaded one when it is
/// usable, the seed otherwise.
pub open spec fn is_start_collection(loaded: Seq<Project>, ps: Seq<Project>) -> bool {
    if valid_collection(loaded) {
        ps == loaded
    } else {
        is_seed(ps)
    }
}

/// `next` is one more than the largest task identifier, or 1 without tasks.
pub open spec fn is_next_task_id(ps: Seq<Project>, next: u32) -> bool {
    &&& task_ids_below(ps, next as int)
    &&& next == 1 || exists|a: int, k: int|
        is_task_pos(ps, a, k) && #[trigger] ps[a].tasks@[k].id + 1 == next
}

/// One step up from `cur` in `ids`: the next lower identifier; the lowest
/// one when none is lower; `cur` itself when there is no identifier.
pub open spec fn is_up_step(ids: Seq<u32>, cur: u32, r: u32) -> bool {
    if ids.len() == 0 {
        r == cur
    } else if has_below(ids, cur) {
        is_next_below(ids, cur, r)
    } else {
        is_min(ids, r)
    }
}

/// The project that switching in direction `dir` from `cur` lands on: the
/// neighbouring identifier, wrapping around at either end.
pub open spec fn is_switch_target(
    ids: Seq<u32>,
    cur: u32,
    dir: SwitchProjectsDirection,
    r: u32,
) -> bool {
    match dir {
        SwitchProjectsDirection::Right => if has_above(ids, cur) {
            is_next_above(ids, cur, r)
        } else {
            is_min(ids, r)
        },
        SwitchProjectsDirection::Left => if has_below(ids, cur) {
            is_next_below(ids, cur, r)
        } else {
            is_max(ids, r)
        },
    }
}

/// Only the tasks of the current project may differ between `p` and `q`.
pub open spec fn only_current_tasks_differ(p: Seq<Project>, q: Seq<Project>) -> bool {
    &&& q.len() == p.len()
    &&& forall|a: int| 0 <= a < p.len() && a != current_index(p) ==> #[trigger] q[a] == p[a]
    &&& q[current_index(p)].id == p[current_index(p)].id
    &&& q[current_index(p)].name == p[current_index(p)].name
    &&& q[current_index(p)].is_current == p[current_index(p)].is_current
}

/// `q` is `p` but for the current flag.
pub open spec fn same_contents(q: Project, p: Project) -> bool {
    q.id == p.id && q.name == p.name && q.tasks@ == p.tasks@
}

/// The seed collection: two projects, the first one current.
pub fn default_projects() -> (ps: Vec<Project>)
    ensures
        is_seed(ps@),
        valid_collection(ps@),
{
    let mut first = Project::new(1, "Welcome".to_owned());
    first.add_task(1, "Welcome in tuido".to_owned());
    first.add_task(2, "You'll love tuido".to_owned());
    first.toggle_current();
    let mut second = Project::new(2, "Other Project".to_owned());
    second.add_task(3, "You can have multiple projects".to_owned());
    let mut ps: Vec<Project> = Vec::new();
    ps.push(first);
    ps.push(second);
    proof {
        let s = ps@;
        assert(is_current_at(s, 0));
        assert forall|a: int, b: int|
            #[trigger] is_current_at(s, a) && #[trigger] is_current_at(s, b) implies a == b by {}
        assert forall|a: int, k: int, b: int, l: int|
            is_task_pos(s, a, k) && is_task_pos(s, b, l) && (a != b || k != l)
                implies #[trigger] s[a].tasks@[k].id != #[trigger] s[b].tasks@[l].id by {}
    }
    ps
}

fn task_ids(tasks: &Vec<Task>) -> (r: Vec<u32>)
    ensures
        r@ == ids_of(tasks@),
{
    let mut r: Vec<u32> = Vec::new();
    let mut i: usize = 0;
    while i < tasks.len()
        invariant
            0 <= i <= tasks@.len(),
            r@ == ids_of(tasks@).subrange(0, i as int),
        decreases tasks@.len() - i,
    {
        r.push(tasks[i].id);
        assert(ids_of(tasks@).subrange(0, i + 1) =~= ids_of(tasks@).subrange(0, i as int).push(
            tasks@[i as int].id,
        ));
        i = i + 1;
    }
    assert(ids_of(tasks@).subrange(0, i as int) =~= ids_of(tasks@));
    r
}

fn project_id_list(ps: &Vec<Project>) -> (r: Vec<u32>)
    ensures
        r@ == project_ids(ps@),
{
    let mut r: Vec<u32> = Vec::new();
    let mut i: usize = 0;
    while i < ps.len()
        invariant
            0 <= i <= ps@.len(),
            r@ == project_ids(ps@).subrange(0, i as int),
        decreases ps@.len() - i,
    {
        r.push(ps[i].id);
        assert(project_ids(ps@).subrange(0, i + 1) =~= project_ids(ps@).subrange(0, i as int).push(
            ps@[i as int].id,
        ));
        i = i + 1;
    }
    assert(project_ids(ps@).subrange(0, i as int) =~= project_ids(ps@));
    r
}

/// The position of the project marked current.
fn current_position(ps: &Vec<Project>) -> (r: usize)
    requires
        one_current(ps@),
    ensures
        r == current_index(ps@),
{
    proof {
        lemma_current_index(ps@);
    }
    let mut i: usize = 0;
    while i < ps.len()
        invariant
            0 <= i <= ps@.len(),
            one_current(ps@),
            current_index(ps@) >= i,
            is_current_at(ps@, current_index(ps@)),
        decreases ps@.len() - i,
    {
        if ps[i].is_current {
            assert(is_current_at(ps@, i as int));
            return i;
        }
        i = i + 1;
    }
    i
}

/// Moves the selection (see `nav_tasks`): `t` is what it makes of `s`.
pub open spec fn nav_tasks_post(s: App, t: App, dir: TaskNavDirection) -> bool {
    &&& match dir {
        TaskNavDirection::Up => if has_below(
            ids_of(current_tasks(s.projects@)),
            s.current_task_id,
        ) {
            is_next_below(
                ids_of(current_tasks(s.projects@)),
                s.current_task_id,
                t.current_task_id,
            )
        } else {
            t.current_task_id == s.current_task_id
        },
        TaskNavDirection::Down => if has_above(
            ids_of(current_tasks(s.projects@)),
            s.current_task_id,
        ) {
            is_next_above(
                ids_of(current_tasks(s.projects@)),
                s.current_task_id,
                t.current_task_id,
            )
        } else {
            t.current_task_id == s.current_task_id
        },
    }
    &&& t.projects == s.projects
    &&& t.next_task_id == s.next_task_id
    &&& t.current_project_id == s.current_project_id
    &&& t.screen_mode == s.screen_mode
    &&& t.cursor_manager == s.cursor_manager
}

/// Switches project (see `switch_project`): `t` is what it makes of `s`.
pub open spec fn switch_project_post(s: App, t: App, dir: SwitchProjectsDirection) -> bool {
    &&& is_switch_target(
        project_ids(s.projects@),
        s.current_project_id,
        dir,
        t.current_project_id
    )
    &&& t.projects@.len() == s.projects@.len()
    &&& forall|a: int|
        0 <= a < s.projects@.len() ==> same_contents(
            #[trigger] t.projects@[a],
            s.projects@[a],
        ) && t.projects@[a].is_current == (s.projects@[a].id
            == t.current_project_id)
    &&& is_first_selection(current_tasks(t.projects@), t.current_task_id)
    &&& t.next_task_id == s.next_task_id
    &&& t.screen_mode == s.screen_mode
    &&& t.cursor_manager == s.cursor_manager
}

/// Adds a task titled `title` (see `add_task`): `t` is what it makes of `s`.
pub open spec fn add_task_post(s: App, t: App, title: String) -> bool {
    &&& only_current_tasks_differ(s.projects@, t.projects@)
    &&& current_tasks(t.projects@) == current_tasks(s.projects@).push(
        Task {
            id: s.next_task_id,
            project_id: s.current_project_id,
            state: TaskState::Todo,
            title: title,
        }
    )
    &&& !ids_of(current_tasks(s.projects@)).contains(s.next_task_id)
    &&& t.current_task_id == s.next_task_id
    &&& t.next_task_id == s.next_task_id + 1
    &&& t.current_project_id == s.current_project_id
    &&& t.screen_mode == s.screen_mode
    &&& t.cursor_manager == s.cursor_manager
}

/// Deletes task `id` and repairs the selection (see `delete_task`): `t` is what it makes of `s`.
pub open spec fn delete_task_post(s: App, t: App, id: u32) -> bool {
    &&& only_current_tasks_differ(s.projects@, t.projects@)
    &&& current_tasks(t.projects@) == without_task(
        current_tasks(s.projects@),
        id
    )
    &&& current_tasks(t.projects@).len() == 0 ==> t.current_task_id == 0
    &&& current_tasks(t.projects@).len() > 0 ==> is_up_step(
        ids_of(current_tasks(t.projects@)),
        s.current_task_id,
        t.current_task_id
    )
    &&& t.next_task_id == s.next_task_id
    &&& t.current_project_id == s.current_project_id
    &&& t.screen_mode == s.screen_mode
    &&& t.cursor_manager == s.cursor_manager
}

/// Toggles the selected task (see `toggle_task_state`): `t` is what it makes of `s`.
pub open spec fn toggle_task_state_post(s: App, t: App) -> bool {
    &&& only_current_tasks_differ(s.projects@, t.projects@)
    &&& current_tasks(t.projects@).len() == current_tasks(s.projects@).len()
    &&& forall|k: int|
        0 <= k < current_tasks(s.projects@).len() ==> #[trigger] current_tasks(
            t.projects@,
        )[k] == toggle_if(current_tasks(s.projects@)[k], s.current_task_id)
    &&& t.next_task_id == s.next_task_id
    &&& t.current_project_id == s.current_project_id
    &&& t.current_task_id == s.current_task_id
    &&& t.screen_mode == s.screen_mode
    &&& t.cursor_manager == s.cursor_manager
}

/// Cancels the selected task (see `cancel_task`): `t` is what it makes of `s`.
pub open spec fn cancel_task_post(s: App, t: App) -> bool {
    &&& only_current_tasks_differ(s.projects@, t.projects@)
    &&& current_tasks(t.projects@).len() == current_tasks(s.projects@).len()
    &&& forall|k: int|
        0 <= k < current_tasks(s.projects@).len() ==> #[trigger] current_tasks(
            t.projects@,
        )[k] == cancel_if(current_tasks(s.projects@)[k], s.current_task_id)
    &&& t.next_task_id == s.next_task_id
    &&& t.current_project_id == s.current_project_id
    &&& t.current_task_id == s.current_task_id
    &&& t.screen_mode == s.screen_mode
    &&& t.cursor_manager == s.cursor_manager
}

/// Retitles the selected task (see `rename_task`): `t` is what it makes of `s`.
pub open spec fn rename_task_post(s: App, t: App, new_title: String) -> bool {
    &&& only_current_tasks_differ(s.projects@, t.projects@)
    &&& current_tasks(t.projects@).len() == current_tasks(s.projects@).len()
    &&& forall|k: int|
        0 <= k < current_tasks(s.projects@).len() ==> #[trigger] current_tasks(
            t.projects@,
        )[k] == retitle_if(
            current_tasks(s.projects@)[k],
            s.current_task_id,
            new_title,
        )
    &&& t.next_task_id == s.next_task_id
    &&& t.current_project_id == s.current_project_id
    &&& t.current_task_id == s.current_task_id
    &&& t.screen_mode == s.screen_mode
    &&& t.cursor_manager == s.cursor_manager
}

/// Renames the current project (see `rename_project`): `t` is what it makes of `s`.
pub open spec fn rename_project_post(s: App, t: App, new_name: String) -> bool {
    &&& t.projects@.len() == s.projects@.len()
    &&& forall|a: int|
        0 <= a < s.projects@.len() && a != current_index(s.projects@)
            ==> #[trigger] t.projects@[a] == s.projects@[a]
    &&& t.projects@[current_index(s.projects@)].name == new_name
    &&& t.projects@[current_index(s.projects@)].id == s.projects@[current_index(s.projects@)].id
    &&& t.projects@[current_index(s.projects@)].is_current
    &&& t.projects@[current_index(s.projects@)].tasks@ == s.projects@[current_index(s.projects@)].tasks@
    &&& t.next_task_id == s.next_task_id
    &&& t.current_project_id == s.current_project_id
    &&& t.current_task_id == s.current_task_id
    &&& t.screen_mode == s.screen_mode
    &&& t.cursor_manager == s.cursor_manager
}

/// Loads the selected task's title into the editor (see `task_to_cursor_manager`): `t` is what it makes of `s`.
pub open spec fn task_to_cursor_manager_post(s: App, t: App) -> bool {
    &&& exists|k: int|
        0 <= k < current_tasks(s.projects@).len()
            && #[trigger] current_tasks(s.projects@)[k].id == s.current_task_id
            && t.cursor_manager.text@ == current_tasks(s.projects@)[k].title@
    &&& t.cursor_manager.cursor_position == t.cursor_manager.text@.len()
    &&& t.projects == s.projects
    &&& t.next_task_id == s.next_task_id
    &&& t.current_project_id == s.current_project_id
    &&& t.current_task_id == s.current_task_id
    &&& t.screen_mode == s.screen_mode
}

/// Adds and selects a new project (see `add_project`): `t` is what it makes of `s`.
pub open spec fn add_project_post(s: App, t: App) -> bool {
    &&& t.projects@.len() == s.projects@.len() + 1
    &&& t.current_project_id > 0
    &&& is_max(project_ids(s.projects@), (t.current_project_id - 1) as u32)
    &&& t.projects@.last().id == t.current_project_id
    &&& t.projects@.last().name@ == "New project"@
    &&& t.projects@.last().is_current
    &&& t.projects@.last().tasks@.len() == 0
    &&& forall|a: int|
        0 <= a < s.projects@.len() ==> same_contents(
            #[trigger] t.projects@[a],
            s.projects@[a],
        ) && !t.projects@[a].is_current
    &&& t.current_task_id == 0
    &&& t.next_task_id == s.next_task_id
    &&& t.screen_mode == s.screen_mode
    &&& t.cursor_manager == s.cursor_manager
}

/// Loads the current project's name into the editor (see `project_to_cursor_manager`): `t` is what it makes of `s`.
pub open spec fn project_to_cursor_manager_post(s: App, t: App) -> bool {
    &&& t.cursor_manager.text@ == s.projects@[current_index(s.projects@)].name@
    &&& t.cursor_manager.cursor_position == t.cursor_manager.text@.len()
    &&& t.projects == s.projects
    &&& t.next_task_id == s.next_task_id
    &&& t.current_project_id == s.current_project_id
    &&& t.current_task_id == s.current_task_id
    &&& t.screen_mode == s.screen_mode
}

/// The invariant survives a change that keeps every identifier, every
/// current flag, the counter and both selections.
proof fn lemma_wf_kept(x: App, y: App)
    requires
        x.wf(),
        same_flags(x.projects@, y.projects@),
        same_ids(x.projects@, y.projects@),
        y.next_task_id == x.next_task_id,
        y.current_project_id == x.current_project_id,
        y.current_task_id == x.current_task_id,
        y.cursor_manager.wf(),
    ensures
        y.wf(),
        current_index(y.projects@) == current_index(x.projects@),
        ids_of(current_tasks(y.projects@)) == ids_of(current_tasks(x.projects@)),
{
    let p = x.projects@;
    let q = y.projects@;
    lemma_same_flags(p, q);
    lemma_same_ids(p, q, u32::MAX as int);
    lemma_same_ids(p, q, x.next_task_id as int);
    let c = current_index(p);
    assert(q[c].id == p[c].id);
    assert forall|k: int| 0 <= k < q[c].tasks@.len() implies #[trigger] q[c].tasks@[k].id
        == p[c].tasks@[k].id by {
        assert(is_task_pos(p, c, k));
    }
    assert(ids_of(q[c].tasks@) =~= ids_of(p[c].tasks@));
    assert forall|a: int| 0 <= a < q.len() implies (#[trigger] q[a].is_current <==> q[a].id
        == y.current_project_id) by {
        assert(same_flag(q[a], p[a]));
    }
}

/// Under the invariant the current project's tasks have distinct identifiers.
proof fn lemma_current_distinct(ps: Seq<Project>)
    requires
        valid_collection(ps),
    ensures
        distinct_ids(current_tasks(ps)),
{
    lemma_current_index(ps);
    let c = current_index(ps);
    assert forall|k: int, l: int|
        0 <= k < ps[c].tasks@.len() && 0 <= l < ps[c].tasks@.len() && k != l
            implies #[trigger] ps[c].tasks@[k].id != #[trigger] ps[c].tasks@[l].id by {
        assert(is_task_pos(ps, c, k) && is_task_pos(ps, c, l));
    }
}

impl App {
    /// The controller's invariant.
    pub open spec fn wf(&self) -> bool {
        &&& valid_collection(self.projects@)
        &&& forall|a: int|
            0 <= a < self.projects@.len() ==> (#[trigger] self.projects@[a].is_current
                <==> self.projects@[a].id == self.current_project_id)
        &&& task_ids_below(self.projects@, self.next_task_id as int)
        &&& selection_resolves(current_tasks(self.projects@), self.current_task_id)
        &&& self.cursor_manager.wf()
    }

    /// Starts from a loaded collection, or from the seed when the loaded one
    /// is empty or breaks a rule of `valid_collection`; then sets the task
    /// counter and both selections.
    pub fn build(loaded: Vec<Project>) -> (app: App)
        ensures
            app.wf(),
            is_start_collection(loaded@, app.projects@),
            is_next_task_id(app.projects@, app.next_task_id),
            app.current_project_id == app.projects@[current_index(app.projects@)].id,
            is_first_selection(current_tasks(app.projects@), app.current_task_id),
            app.screen_mode == ScreenMode::Main,
            app.cursor_manager.text@.len() == 0,
            app.cursor_manager.cursor_position == 0,
    {
        let mut app = App {
            projects: Vec::new(),
            next_task_id: 0,
            current_project_id: 0,
            current_task_id: 0,
            screen_mode: ScreenMode::Main,
            cursor_manager: CursorManager::new(),
        };
        app.read_file(loaded);
        app.init_next_task_id();
        app.get_current_project_id();
        app.init_current_task_id();
        proof {
            lemma_current_index(app.projects@);
            let ps = app.projects@;
            assert forall|a: int| 0 <= a < ps.len() implies (#[trigger] ps[a].is_current
                <==> ps[a].id == app.current_project_id) by {
                assert(ps[a].is_current ==> is_current_at(ps, a));
            }
        }
        app
    }

    /// Takes the loaded collection when it is usable, the seed otherwise.
    pub fn read_file(&mut self, loaded: Vec<Project>)
        ensures
            is_start_collection(loaded@, final(self).projects@),
            valid_collection(final(self).projects@),
            final(self).next_task_id == old(self).next_task_id,
            final(self).current_project_id == old(self).current_project_id,
            final(self).current_task_id == old(self).current_task_id,
            final(self).screen_mode == old(self).screen_mode,
            final(self).cursor_manager == old(self).cursor_manager,
    {
        if collection_is_valid(&loaded) {
            self.projects = loaded;
        } else {
            self.projects = default_projects();
        }
    }

    /// Sets the task counter past every task identifier.
    pub fn init_next_task_id(&mut self)
        requires
            task_ids_below(old(self).projects@, u32::MAX as int),
        ensures
            is_next_task_id(final(self).projects@, final(self).next_task_id),
            final(self).projects == old(self).projects,
            final(self).current_project_id == old(self).current_project_id,
            final(self).current_task_id == old(self).current_task_id,
            final(self).screen_mode == old(self).screen_mode,
            final(self).cursor_manager == old(self).cursor_manager,
    {
        let ghost ps = self.projects@;
        let mut best: Option<u32> = None;
        let mut a: usize = 0;
        while a < self.projects.len()
            invariant
                0 <= a <= ps.len(),
                self.projects@ == ps,
                task_ids_below(ps, u32::MAX as int),
                best is None ==> forall|a2: int, k2: int|
                    is_task_pos(ps, a2, k2) && a2 < a ==> false,
                best matches Some(m) ==> (exists|a2: int, k2: int|
                    is_task_pos(ps, a2, k2) && #[trigger] ps[a2].tasks@[k2].id == m) && forall|
                    a2: int,
                    k2: int,
                | is_task_pos(ps, a2, k2) && a2 < a ==> #[trigger] ps[a2].tasks@[k2].id <= m,
            decreases ps.len() - a,
        {
            let ids = task_ids(&self.projects[a].tasks);
            match max_id(&ids) {
                Some(m) => {
                    assert(ids@.contains(m));
                    let ghost k = choose|k: int| 0 <= k < ids@.len() && ids@[k] == m;
                    assert(is_task_pos(ps, a as int, k));
                    assert(ps[a as int].tasks@[k].id == m);
                    assert forall|k2: int| is_task_pos(ps, a as int, k2) implies #[trigger] ps[a as int].tasks@[k2].id <= m by {
                        assert(ids@[k2] == ps[a as int].tasks@[k2].id);
                    }
                    match best {
                        Some(b) => {
                            if m > b {
                                best = Some(m);
                            }
                        },
                        None => {
                            best = Some(m);
                        },
                    }
                },
                None => {},
            }
            a = a + 1;
        }
        match best {
            Some(m) => {
                assert(is_task_pos(ps, 0, 0) ==> ps[0].tasks@[0].id < u32::MAX);
                let ghost (a2, k2) = choose|a2: int, k2: int|
                    is_task_pos(ps, a2, k2) && #[trigger] ps[a2].tasks@[k2].id == m;
                assert(m < u32::MAX);
                self.next_task_id = m + 1;
            },
            None => {
                self.next_task_id = 1;
            },
        }
    }

    /// Reads the current project's identifier off the collection.
    pub fn get_current_project_id(&mut self)
        requires
            one_current(old(self).projects@),
        ensures
            final(self).current_project_id == old(self).projects@[current_index(
                old(self).projects@,
            )].id,
            final(self).projects == old(self).projects,
            final(self).next_task_id == old(self).next_task_id,
            final(self).current_task_id == old(self).current_task_id,
            final(self).screen_mode == old(self).screen_mode,
            final(self).cursor_manager == old(self).cursor_manager,
    {
        let c = current_position(&self.projects);
        self.current_project_id = self.projects[c].id;
    }

    /// Selects the lowest task identifier of the current project, or 0.
    pub fn init_current_task_id(&mut self)
        requires
            one_current(old(self).projects@),
        ensures
            is_first_selection(current_tasks(old(self).projects@), final(self).current_task_id),
            final(self).projects == old(self).projects,
            final(self).next_task_id == old(self).next_task_id,
            final(self).current_project_id == old(self).current_project_id,
            final(self).screen_mode == old(self).screen_mode,
            final(self).cursor_manager == old(self).cursor_manager,
    {
        let c = current_position(&self.projects);
        let ids = task_ids(&self.projects[c].tasks);
        match min_id(&ids) {
            Some(m) => {
                self.current_task_id = m;
            },
            None => {
                self.current_task_id = 0;
            },
        }
    }

    /// Moves the selection one step up in the current project (see
    /// `is_up_step`); the selection need not resolve beforehand.
    fn step_up(&mut self)
        requires
            one_current(old(self).projects@),
        ensures
            is_up_step(
                ids_of(current_tasks(old(self).projects@)),
                old(self).current_task_id,
                final(self).current_task_id,
            ),
            final(self).projects == old(self).projects,
            final(self).next_task_id == old(self).next_task_id,
            final(self).current_project_id == old(self).current_project_id,
            final(self).screen_mode == old(self).screen_mode,
            final(self).cursor_manager == old(self).cursor_manager,
    {
        let c = current_position(&self.projects);
        let ids = task_ids(&self.projects[c].tasks);
        match min_id(&ids) {
            Some(m) => {
                if m >= self.current_task_id {
                    self.current_task_id = m;
                } else {
                    match next_below(&ids, self.current_task_id) {
                        Some(b) => {
                            self.current_task_id = b;
                        },
                        None => {
                            assert(ids@.contains(m));
                        },
                    }
                }
            },
            None => {},
        }
    }

    /// Moves the selection to the next lower (Up) or next higher (Down) task
    /// identifier of the current project; nothing happens at either end.
    pub fn nav_tasks(&mut self, dir: TaskNavDirection)
        requires
            old(self).wf(),
        ensures
            final(self).wf(),
            nav_tasks_post(*old(self), *final(self), dir),
    {
        let ghost ids = ids_of(current_tasks(self.projects@));
        let ghost cur = self.current_task_id;
        match dir {
            TaskNavDirection::Up => {
                self.step_up();
                proof {
                    if ids.len() > 0 && !has_below(ids, cur) {
                        let k = choose|k: int| 0 <= k < ids.len() && ids[k] == self.current_task_id;
                        let j = choose|j: int| 0 <= j < ids.len() && ids[j] == cur;
                        assert(ids[j] >= self.current_task_id);
                        assert(!(ids[k] < cur));
                    }
                }
            },
            TaskNavDirection::Down => {
                let c = current_position(&self.projects);
                let ids_v = task_ids(&self.projects[c].tasks);
                match next_above(&ids_v, self.current_task_id) {
                    Some(n) => {
                        self.current_task_id = n;
                    },
                    None => {},
                }
            },
        }
    }

    /// Makes the neighbouring project (by identifier, wrapping around)
    /// current, and selects its lowest task.
    pub fn switch_project(&mut self, dir: SwitchProjectsDirection)
        requires
            old(self).wf(),
        ensures
            final(self).wf(),
            switch_project_post(*old(self), *final(self), dir),
    {
        let ghost ps = self.projects@;
        let pids = project_id_list(&self.projects);
        let cur = self.current_project_id;
        let target = match dir {
            SwitchProjectsDirection::Right => match next_above(&pids, cur) {
                Some(n) => n,
                None => match min_id(&pids) {
                    Some(m) => m,
                    None => cur,
                },
            },
            SwitchProjectsDirection::Left => match next_below(&pids, cur) {
                Some(n) => n,
                None => match max_id(&pids) {
                    Some(m) => m,
                    None => cur,
                },
            },
        };
        assert(pids@.len() == ps.len());
        assert(pids@.contains(target));
        let mut i: usize = 0;
        while i < self.projects.len()
            invariant
                0 <= i <= ps.len(),
                self.projects@.len() == ps.len(),
                forall|a: int|
                    0 <= a < ps.len() ==> #[trigger] self.projects@[a].id == ps[a].id
                        && self.projects@[a].name == ps[a].name && self.projects@[a].tasks@
                        == ps[a].tasks@,
                forall|a: int|
                    0 <= a < i ==> #[trigger] self.projects@[a].is_current == (ps[a].id == target),
                forall|a: int|
                    i <= a < ps.len() ==> #[trigger] self.projects@[a].is_current
                        == ps[a].is_current,
                self.next_task_id == old(self).next_task_id,
                self.current_task_id == old(self).current_task_id,
                self.screen_mode == old(self).screen_mode,
                self.cursor_manager == old(self).cursor_manager,
            decreases ps.len() - i,
        {
            let ghost before = self.projects@;
            let is_target = self.projects[i].id == target;
            if self.projects[i].is_current != is_target {
                self.projects[i].toggle_current();
            }
            i = i + 1;
        }
        self.current_project_id = target;
        proof {
            let q = self.projects@;
            assert(same_ids(ps, q)) by {
                assert forall|a: int, k: int| is_task_pos(ps, a, k) implies #[trigger] q[a].tasks@[k].id
                    == ps[a].tasks@[k].id by {
                    assert(q[a].id == ps[a].id);
                }
            }
            lemma_same_ids(ps, q, self.next_task_id as int);
            lemma_same_ids(ps, q, u32::MAX as int);
            let t = choose|t: int| 0 <= t < pids@.len() && pids@[t] == target;
            assert(project_ids(ps)[t] == ps[t].id);
            assert(is_current_at(q, t));
            assert forall|a: int, b: int|
                #[trigger] is_current_at(q, a) && #[trigger] is_current_at(q, b) implies a == b by {
                assert(q[a].id == ps[a].id && q[b].id == ps[b].id);
            }
            assert forall|a: int| 0 <= a < q.len() implies (#[trigger] q[a].is_current
                <==> q[a].id == self.current_project_id) by {
                assert(q[a].id == ps[a].id);
            }
        }
        self.init_current_task_id();
        proof {
            let q = self.projects@;
            assert(ps == old(self).projects@);
            assert forall|a: int| 0 <= a < ps.len() implies same_contents(#[trigger] q[a], ps[a])
                && q[a].is_current == (ps[a].id == self.current_project_id) by {
                assert(q[a].is_current == (ps[a].id == target));
            }
        }
    }

    /// The name of the current project.
    pub fn get_current_project_name(&self) -> (r: String)
        requires
            self.wf(),
        ensures
            r == self.projects@[current_index(self.projects@)].name,
    {
        let c = current_position(&self.projects);
        self.projects[c].name.clone()
    }

    /// The tasks of the current project, in insertion order.
    pub fn get_current_project_tasks(&self) -> (r: Option<&Vec<Task>>)
        requires
            self.wf(),
        ensures
            r matches Some(v) && v@ == current_tasks(self.projects@),
    {
        let c = current_position(&self.projects);
        Some(&self.projects[c].tasks)
    }

    /// Appends a Todo task titled `title` to the current project, with the
    /// counter's identifier, selects it, and advances the counter.
    pub fn add_task(&mut self, title: String)
        requires
            old(self).wf(),
            old(self).next_task_id < u32::MAX,
        ensures
            final(self).wf(),
            add_task_post(*old(self), *final(self), title),
    {
        let ghost ps = self.projects@;
        proof {
            lemma_current_index(ps);
        }
        let c = current_position(&self.projects);
        let id = self.next_task_id;
        assert(ps[c as int].id == self.current_project_id);
        self.projects[c].add_task(id, title);
        self.current_task_id = id;
        self.next_task_id = id + 1;
        proof {
            let q = self.projects@;
            let t = Task {
                id: id,
                project_id: ps[c as int].id,
                state: TaskState::Todo,
                title: title,
            };
            assert(same_flags(ps, q)) by {
                assert forall|a: int| 0 <= a < ps.len() implies same_flag(#[trigger] q[a], ps[a]) by {
                    if a != c {
                        assert(q[a] == ps[a]);
                    }
                }
            }
            lemma_same_flags(ps, q);
            lemma_push_task(ps, q, c as int, t);
            assert(task_ids_below(ps, u32::MAX as int));
            assert(ids_of(q[c as int].tasks@)[ps[c as int].tasks@.len() as int] == id);
            assert forall|a: int| 0 <= a < q.len() implies (#[trigger] q[a].is_current
                <==> q[a].id == self.current_project_id) by {
                assert(same_flag(q[a], ps[a]));
            }
            if ids_of(ps[c as int].tasks@).contains(id) {
                let k = choose|k: int| 0 <= k < ps[c as int].tasks@.len() && ids_of(ps[c as int].tasks@)[k] == id;
                assert(is_task_pos(ps, c as int, k));
            }
        }
    }

    /// Removes the task `id` from the current project, then repairs the
    /// selection: one step up (see `is_up_step`), or 0 when no task is left.
    pub fn delete_task(&mut self, id: u32)
        requires
            old(self).wf(),
        ensures
            final(self).wf(),
            delete_task_post(*old(self), *final(self), id),
    {
        let ghost ps = self.projects@;
        proof {
            lemma_current_index(ps);
            lemma_current_distinct(ps);
            lemma_without_task(ps[current_index(ps)].tasks@, id);
        }
        let c = current_position(&self.projects);
        self.projects[c].delete_task(id);
        proof {
            let q = self.projects@;
            assert(same_flags(ps, q)) by {
                assert forall|a: int| 0 <= a < ps.len() implies same_flag(#[trigger] q[a], ps[a]) by {
                    if a != c {
                        assert(q[a] == ps[a]);
                    }
                }
            }
            lemma_same_flags(ps, q);
            lemma_replace_tasks(ps, q, c as int, u32::MAX as int);
            lemma_replace_tasks(ps, q, c as int, self.next_task_id as int);
        }
        if self.projects[c].tasks.len() == 0 {
            self.current_task_id = 0;
        } else {
            self.step_up();
        }
        proof {
            let q = self.projects@;
            assert forall|a: int| 0 <= a < q.len() implies (#[trigger] q[a].is_current
                <==> q[a].id == self.current_project_id) by {
                assert(same_flag(q[a], ps[a]));
            }
        }
    }

    /// Toggles the state of the selected task.
    pub fn toggle_task_state(&mut self)
        requires
            old(self).wf(),
        ensures
            final(self).wf(),
            toggle_task_state_post(*old(self), *final(self)),
    {
        let ghost before = *self;
        proof {
            lemma_current_index(self.projects@);
        }
        let c = current_position(&self.projects);
        let id = self.current_task_id;
        self.projects[c].toggle_task_state(id);
        proof {
            self.lemma_current_tasks_edit(before, c as int);
        }
    }

    /// Cancels the selected task.
    pub fn cancel_task(&mut self)
        requires
            old(self).wf(),
        ensures
            final(self).wf(),
            cancel_task_post(*old(self), *final(self)),
    {
        let ghost before = *self;
        proof {
            lemma_current_index(self.projects@);
        }
        let c = current_position(&self.projects);
        let id = self.current_task_id;
        self.projects[c].cancel_task(id);
        proof {
            self.lemma_current_tasks_edit(before, c as int);
        }
    }

    /// Gives the selected task the title `new_title`.
    pub fn rename_task(&mut self, new_title: String)
        requires
            old(self).wf(),
        ensures
            final(self).wf(),
            rename_task_post(*old(self), *final(self), new_title),
    {
        let ghost before = *self;
        proof {
            lemma_current_index(self.projects@);
        }
        let c = current_position(&self.projects);
        let id = self.current_task_id;
        self.projects[c].rename_task(id, new_title);
        proof {
            self.lemma_current_tasks_edit(before, c as int);
        }
    }

    /// After an edit of the current project (its name, or its tasks keeping
    /// their identifiers), the invariant still holds and the current project is
    /// the same.
    proof fn lemma_current_tasks_edit(&self, before: App, c: int)
        requires
            before.wf(),
            c == current_index(before.projects@),
            self.projects@.len() == before.projects@.len(),
            forall|a: int|
                0 <= a < before.projects@.len() && a != c ==> #[trigger] self.projects@[a]
                    == before.projects@[a],
            self.projects@[c].id == before.projects@[c].id,
            self.projects@[c].is_current == before.projects@[c].is_current,
            self.projects@[c].tasks@.len() == before.projects@[c].tasks@.len(),
            forall|k: int|
                0 <= k < before.projects@[c].tasks@.len() ==> #[trigger] self.projects@[c].tasks@[k].id
                    == before.projects@[c].tasks@[k].id,
            self.next_task_id == before.next_task_id,
            self.current_project_id == before.current_project_id,
            self.current_task_id == before.current_task_id,
            self.cursor_manager == before.cursor_manager,
        ensures
            self.wf(),
            current_index(self.projects@) == c,
    {
        let p = before.projects@;
        let q = self.projects@;
        assert(same_flags(p, q)) by {
            assert forall|a: int| 0 <= a < p.len() implies same_flag(#[trigger] q[a], p[a]) by {
                if a != c {
                    assert(q[a] == p[a]);
                }
            }
        }
        assert(same_ids(p, q)) by {
            assert forall|a: int| 0 <= a < p.len() implies #[trigger] q[a].id == p[a].id
                && q[a].tasks@.len() == p[a].tasks@.len() by {
                if a != c {
                    assert(q[a] == p[a]);
                }
            }
            assert forall|a: int, k: int| is_task_pos(p, a, k) implies #[trigger] q[a].tasks@[k].id
                == p[a].tasks@[k].id by {
                if a != c {
                    assert(q[a] == p[a]);
                }
            }
        }
        lemma_wf_kept(before, *self);
    }

    /// Gives the current project the name `new_name`.
    pub fn rename_project(&mut self, new_name: String)
        requires
            old(self).wf(),
        ensures
            final(self).wf(),
            rename_project_post(*old(self), *final(self), new_name),
    {
        let ghost before = *self;
        proof {
            lemma_current_index(self.projects@);
        }
        let c = current_position(&self.projects);
        self.projects[c].rename(new_name);
        proof {
            self.lemma_current_tasks_edit(before, c as int);
        }
    }

    /// Loads the selected task's title into the editor, to rename it.
    pub fn task_to_cursor_manager(&mut self)
        requires
            old(self).wf(),
            current_tasks(old(self).projects@).len() > 0,
        ensures
            final(self).wf(),
            task_to_cursor_manager_post(*old(self), *final(self)),
    {
        let c = current_position(&self.projects);
        let ghost tasks = self.projects@[c as int].tasks@;
        let mut k: usize = 0;
        while k < self.projects[c].tasks.len() && self.projects[c].tasks[k].id != self.current_task_id
            invariant
                c == current_index(self.projects@),
                0 <= c < self.projects@.len(),
                tasks == self.projects@[c as int].tasks@,
                0 <= k <= tasks.len(),
                forall|j: int| 0 <= j < k ==> #[trigger] tasks[j].id != self.current_task_id,
            decreases tasks.len() - k,
        {
            k = k + 1;
        }
        proof {
            let ids = ids_of(tasks);
            let j = choose|j: int| 0 <= j < ids.len() && ids[j] == self.current_task_id;
            assert(tasks[j].id == self.current_task_id);
        }
        let title = self.projects[c].tasks[k].title.clone();
        self.cursor_manager.set_string(title);
        assert(current_tasks(old(self).projects@)[k as int].id == old(self).current_task_id);
    }

    /// Creates a project named "New project" with the identifier after the
    /// largest one, and makes it current; the selection becomes 0, as the new
    /// project has no task.
    pub fn add_project(&mut self)
        requires
            old(self).wf(),
            forall|a: int|
                0 <= a < old(self).projects@.len() ==> #[trigger] old(self).projects@[a].id
                    < u32::MAX,
        ensures
            final(self).wf(),
            add_project_post(*old(self), *final(self)),
    {
        let ghost ps = self.projects@;
        proof {
            lemma_current_index(ps);
        }
        let pids = project_id_list(&self.projects);
        let m = match max_id(&pids) {
            Some(m) => m,
            None => 0,
        };
        assert(pids@.contains(m));
        let ghost mi = choose|mi: int| 0 <= mi < pids@.len() && pids@[mi] == m;
        assert(ps[mi].id == m);
        let id = m + 1;
        let c = current_position(&self.projects);
        self.projects[c].toggle_current();
        let mut fresh = Project::new(id, "New project".to_owned());
        fresh.toggle_current();
        self.projects.push(fresh);
        self.current_project_id = id;
        self.current_task_id = 0;
        proof {
            let q = self.projects@;
            let n = ps.len() as int;
            assert forall|a: int| 0 <= a < n implies same_contents(#[trigger] q[a], ps[a])
                && !q[a].is_current && q[a].id < id by {
                assert(project_ids(ps)[a] == ps[a].id);
                if a != c {
                    assert(q[a] == ps[a]);
                    assert(!is_current_at(ps, a));
                }
            }
            assert(is_current_at(q, n));
            assert forall|a: int, b: int|
                #[trigger] is_current_at(q, a) && #[trigger] is_current_at(q, b) implies a == b by {
                if a < n {
                    assert(!q[a].is_current);
                }
                if b < n {
                    assert(!q[b].is_current);
                }
            }
            lemma_current_index(q);
            assert forall|a: int, b: int|
                0 <= a < q.len() && 0 <= b < q.len() && a != b implies #[trigger] q[a].id
                != #[trigger] q[b].id by {
                if a < n && b < n {
                    assert(ps[a].id != ps[b].id);
                }
            }
            assert forall|a: int, k: int| is_task_pos(q, a, k) implies is_task_pos(ps, a, k)
                && #[trigger] q[a].tasks@[k].id == ps[a].tasks@[k].id by {
                assert(same_contents(q[a], ps[a]));
            }
            assert forall|a: int, k: int, b: int, l: int|
                is_task_pos(q, a, k) && is_task_pos(q, b, l) && (a != b || k != l)
                    implies #[trigger] q[a].tasks@[k].id != #[trigger] q[b].tasks@[l].id by {
                assert(ps[a].tasks@[k].id != ps[b].tasks@[l].id);
            }
            assert forall|a: int, k: int| is_task_pos(q, a, k) implies #[trigger] q[a].tasks@[k].id
                < self.next_task_id && q[a].tasks@[k].id < u32::MAX by {
                assert(ps[a].tasks@[k].id < self.next_task_id);
            }
            assert forall|a: int| 0 <= a < q.len() implies (#[trigger] q[a].is_current
                <==> q[a].id == self.current_project_id) by {
                if a < n {
                    assert(same_contents(q[a], ps[a]));
                }
            }
        }
    }

    /// Loads the current project's name into the editor, to rename it.
    pub fn project_to_cursor_manager(&mut self)
        requires
            old(self).wf(),
        ensures
            final(self).wf(),
            project_to_cursor_manager_post(*old(self), *final(self)),
    {
        let c = current_position(&self.projects);
        let name = self.projects[c].name.clone();
        self.cursor_manager.set_string(name);
    }
}

/// In every state the controller reaches (`build` establishes `wf` and every
/// operation keeps it), exactly one project is current, and it is the one
/// named by `current_project_id`.
pub proof fn lemma_exactly_one_current(app: App)
    requires
        app.wf(),
    ensures
        exists|a: int| 0 <= a < app.projects@.len() && #[trigger] app.projects@[a].is_current,
        forall|a: int, b: int|
            0 <= a < app.projects@.len() && 0 <= b < app.projects@.len()
                && #[trigger] app.projects@[a].is_current && #[trigger] app.projects@[b].is_current
                ==> a == b,
        app.projects@[current_index(app.projects@)].id == app.current_project_id,
{
    lemma_current_index(app.projects@);
    let c = current_index(app.projects@);
    assert(app.projects@[c].is_current);
    assert forall|a: int, b: int|
        0 <= a < app.projects@.len() && 0 <= b < app.projects@.len()
            && #[trigger] app.projects@[a].is_current && #[trigger] app.projects@[b].is_current
            implies a == b by {
        assert(is_current_at(app.projects@, a) && is_current_at(app.projects@, b));
    }
}

/// In every state the controller reaches, no two tasks of the whole
/// collection share an identifier.
pub proof fn lemma_task_ids_unique(app: App)
    requires
        app.wf(),
    ensures
        forall|a: int, k: int, b: int, l: int|
            0 <= a < app.projects@.len() && 0 <= k < app.projects@[a].tasks@.len() && 0 <= b
                < app.projects@.len() && 0 <= l < app.projects@[b].tasks@.len() && (a != b || k
                != l) ==> #[trigger] app.projects@[a].tasks@[k].id
                != #[trigger] app.projects@[b].tasks@[l].id,
{
    assert forall|a: int, k: int, b: int, l: int|
        0 <= a < app.projects@.len() && 0 <= k < app.projects@[a].tasks@.len() && 0 <= b
            < app.projects@.len() && 0 <= l < app.projects@[b].tasks@.len() && (a != b || k != l)
            implies #[trigger] app.projects@[a].tasks@[k].id
            != #[trigger] app.projects@[b].tasks@[l].id by {
        assert(is_task_pos(app.projects@, a, k) && is_task_pos(app.projects@, b, l));
    }
}

/// `add_task` never hands out an identifier twice, deletions in between
/// included: the identifier it hands out (the counter) is held by no task,
/// each call advances the counter, and no operation moves it back. So an
/// `add_task` from any state `later` whose counter is at least the one left
/// by an earlier `add_task` (from `before` to `after`) hands out a larger,
/// unused identifier.
pub proof fn lemma_task_ids_never_reused(before: App, after: App, later: App)
    requires
        before.wf(),
        later.wf(),
        after.next_task_id == before.next_task_id + 1,
        later.next_task_id >= after.next_task_id,
    ensures
        forall|a: int, k: int|
            0 <= a < before.projects@.len() && 0 <= k < before.projects@[a].tasks@.len()
                ==> #[trigger] before.projects@[a].tasks@[k].id != before.next_task_id,
        later.next_task_id > before.next_task_id,
        forall|a: int, k: int|
            0 <= a < later.projects@.len() && 0 <= k < later.projects@[a].tasks@.len()
                ==> #[trigger] later.projects@[a].tasks@[k].id != later.next_task_id,
{
    assert forall|a: int, k: int|
        0 <= a < before.projects@.len() && 0 <= k < before.projects@[a].tasks@.len()
            implies #[trigger] before.projects@[a].tasks@[k].id != before.next_task_id by {
        assert(is_task_pos(before.projects@, a, k));
    }
    assert forall|a: int, k: int|
        0 <= a < later.projects@.len() && 0 <= k < later.projects@[a].tasks@.len()
            implies #[trigger] later.projects@[a].tasks@[k].id != later.next_task_id by {
        assert(is_task_pos(later.projects@, a, k));
    }
}

} // verus!
