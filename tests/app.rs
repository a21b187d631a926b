use tuido::app::{default_projects, App, ScreenMode, SwitchProjectsDirection, TaskNavDirection};
use tuido::collection::collection_is_valid;
use tuido::project::Project;
use tuido::task::TaskState;

/// Projects 1, 2 and 3, the second current; project 2 holds tasks 2, 4 and 7.
fn three_projects() -> Vec<Project> {
    let mut one = Project::new(1, String::from("one"));
    one.add_task(1, String::from("t1"));
    let mut two = Project::new(2, String::from("two"));
    two.add_task(4, String::from("t4"));
    two.add_task(2, String::from("t2"));
    two.add_task(7, String::from("t7"));
    two.toggle_current();
    let three = Project::new(3, String::from("three"));
    vec![one, two, three]
}

fn current_ids(app: &App) -> Vec<u32> {
    app.get_current_project_tasks().unwrap().iter().map(|t| t.id).collect()
}

fn current_count(app: &App) -> usize {
    app.projects.iter().filter(|p| p.is_current).count()
}

#[test]
fn fresh_store_is_seeded() {
    let app = App::build(vec![]);
    assert_eq!(app.projects.len(), 2);
    assert!(app.projects[0].is_current);
    assert!(!app.projects[1].is_current);
    assert_eq!(app.projects[0].name, "Welcome");
    assert_eq!(app.projects[1].name, "Other Project");
    assert_eq!(app.projects[0].tasks.len(), 2);
    assert_eq!(app.projects[1].tasks.len(), 1);
    for p in &app.projects {
        for t in &p.tasks {
            assert_eq!(t.state, TaskState::Todo);
            assert_eq!(t.project_id, p.id);
        }
    }
    assert_eq!(app.projects[0].tasks[0].title, "Welcome in tuido");
    assert_eq!(app.next_task_id, 4);
    assert_eq!(app.current_project_id, 1);
    assert_eq!(app.current_task_id, 1);
    assert_eq!(app.screen_mode, ScreenMode::Main);
    assert_eq!(app.get_current_project_name(), "Welcome");
}

#[test]
fn seed_is_valid() {
    assert!(collection_is_valid(&default_projects()));
}

#[test]
fn loaded_collection_is_kept() {
    let app = App::build(three_projects());
    assert_eq!(app.projects.len(), 3);
    assert_eq!(app.current_project_id, 2);
    assert_eq!(app.current_task_id, 2);
    assert_eq!(app.next_task_id, 8);
    assert_eq!(current_ids(&app), vec![4, 2, 7]);
}

#[test]
fn unusable_collection_is_replaced_by_seed() {
    let mut two_current = three_projects();
    two_current[0].toggle_current();
    assert!(!collection_is_valid(&two_current));
    let app = App::build(two_current);
    assert_eq!(app.projects.len(), 2);
    assert_eq!(app.projects[0].name, "Welcome");

    let mut duplicate_task = three_projects();
    duplicate_task[2].add_task(4, String::from("again"));
    assert!(!collection_is_valid(&duplicate_task));

    let mut duplicate_project = three_projects();
    duplicate_project.push(Project::new(3, String::from("copy")));
    assert!(!collection_is_valid(&duplicate_project));

    let mut none_current = three_projects();
    none_current[1].toggle_current();
    assert!(!collection_is_valid(&none_current));

    let mut top_id = three_projects();
    top_id[0].add_task(u32::MAX, String::from("top"));
    assert!(!collection_is_valid(&top_id));
}

#[test]
fn switch_project_wraps_right() {
    let mut app = App::build(three_projects());
    app.switch_project(SwitchProjectsDirection::Right);
    assert_eq!(app.current_project_id, 3);
    assert!(app.projects[2].is_current);
    assert_eq!(app.current_task_id, 0);
    app.switch_project(SwitchProjectsDirection::Right);
    assert_eq!(app.current_project_id, 1);
    assert_eq!(app.current_task_id, 1);
    assert_eq!(current_count(&app), 1);
}

#[test]
fn switch_project_wraps_left() {
    let mut app = App::build(three_projects());
    app.switch_project(SwitchProjectsDirection::Left);
    assert_eq!(app.current_project_id, 1);
    app.switch_project(SwitchProjectsDirection::Left);
    assert_eq!(app.current_project_id, 3);
    assert_eq!(app.get_current_project_name(), "three");
    app.switch_project(SwitchProjectsDirection::Left);
    assert_eq!(app.current_project_id, 2);
    assert_eq!(app.current_task_id, 2);
    assert_eq!(current_count(&app), 1);
}

#[test]
fn nav_tasks_clamps() {
    let mut app = App::build(three_projects());
    assert_eq!(app.current_task_id, 2);
    app.nav_tasks(TaskNavDirection::Up);
    assert_eq!(app.current_task_id, 2);
    app.nav_tasks(TaskNavDirection::Down);
    assert_eq!(app.current_task_id, 4);
    app.nav_tasks(TaskNavDirection::Down);
    assert_eq!(app.current_task_id, 7);
    app.nav_tasks(TaskNavDirection::Down);
    assert_eq!(app.current_task_id, 7);
    app.nav_tasks(TaskNavDirection::Up);
    assert_eq!(app.current_task_id, 4);
}

#[test]
fn nav_tasks_on_empty_project() {
    let mut app = App::build(three_projects());
    app.switch_project(SwitchProjectsDirection::Right);
    app.nav_tasks(TaskNavDirection::Up);
    assert_eq!(app.current_task_id, 0);
    app.nav_tasks(TaskNavDirection::Down);
    assert_eq!(app.current_task_id, 0);
}

#[test]
fn delete_repairs_selection() {
    let mut app = App::build(three_projects());
    app.nav_tasks(TaskNavDirection::Down);
    assert_eq!(app.current_task_id, 4);
    app.delete_task(4);
    assert_eq!(app.current_task_id, 2);
    assert_eq!(current_ids(&app), vec![2, 7]);
    app.delete_task(2);
    assert_eq!(app.current_task_id, 7);
    app.delete_task(7);
    assert_eq!(app.current_task_id, 0);
    assert!(current_ids(&app).is_empty());
    app.delete_task(7);
    assert_eq!(app.current_task_id, 0);
}

#[test]
fn add_task_never_reuses_ids() {
    let mut app = App::build(three_projects());
    app.add_task(String::from("new"));
    assert_eq!(app.current_task_id, 8);
    assert_eq!(app.next_task_id, 9);
    app.delete_task(8);
    app.add_task(String::from("newer"));
    assert_eq!(app.current_task_id, 9);
    assert_eq!(current_ids(&app), vec![4, 2, 7, 9]);
    let t = app.get_current_project_tasks().unwrap().last().unwrap();
    assert_eq!(t.title, "newer");
    assert_eq!(t.state, TaskState::Todo);
    assert_eq!(t.project_id, 2);
}

#[test]
fn toggle_cancel_rename_selected_task() {
    let mut app = App::build(three_projects());
    app.nav_tasks(TaskNavDirection::Down);
    app.toggle_task_state();
    app.toggle_task_state();
    app.toggle_task_state();
    assert_eq!(app.projects[1].tasks[0].state, TaskState::Completed);
    app.cancel_task();
    assert_eq!(app.projects[1].tasks[0].state, TaskState::Canceled);
    app.rename_task(String::from("renamed"));
    assert_eq!(app.projects[1].tasks[0].title, "renamed");
    assert_eq!(app.projects[1].tasks[1].title, "t2");
    assert_eq!(app.projects[1].tasks[1].state, TaskState::Todo);
}

#[test]
fn rename_through_editor() {
    let mut app = App::build(three_projects());
    app.task_to_cursor_manager();
    assert_eq!(app.cursor_manager.string(), "t2");
    assert_eq!(app.cursor_manager.cursor_position, 2);
    app.cursor_manager.insert('x');
    let title = app.cursor_manager.validate();
    app.rename_task(title);
    assert_eq!(app.projects[1].tasks[1].title, "t2x");

    app.project_to_cursor_manager();
    assert_eq!(app.cursor_manager.string(), "two");
    app.cursor_manager.delete();
    let name = app.cursor_manager.validate();
    app.rename_project(name);
    assert_eq!(app.get_current_project_name(), "tw");
}

#[test]
fn add_project_becomes_current() {
    let mut app = App::build(three_projects());
    app.add_project();
    assert_eq!(app.projects.len(), 4);
    assert_eq!(app.current_project_id, 4);
    assert_eq!(app.current_task_id, 0);
    assert_eq!(app.get_current_project_name(), "New project");
    assert_eq!(current_count(&app), 1);
    assert!(app.projects[3].is_current);
    app.add_task(String::from("first"));
    assert_eq!(app.current_task_id, 8);
    app.switch_project(SwitchProjectsDirection::Right);
    assert_eq!(app.current_project_id, 1);
}

#[test]
fn startup_steps() {
    let mut app = App::build(vec![]);
    app.read_file(three_projects());
    app.init_next_task_id();
    assert_eq!(app.next_task_id, 8);
    app.get_current_project_id();
    assert_eq!(app.current_project_id, 2);
    app.init_current_task_id();
    assert_eq!(app.current_task_id, 2);
}
