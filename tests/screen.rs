use tuido::app::{App, ScreenMode};
use tuido::project::Project;
use tuido::screen::{Effect, Key};
use tuido::task::TaskState;

/// Projects 1 and 2, the first current and holding tasks 2, 4 and 7.
fn sample() -> App {
    let mut one = Project::new(1, String::from("one"));
    one.add_task(2, String::from("t2"));
    one.add_task(4, String::from("t4"));
    one.add_task(7, String::from("t7"));
    one.toggle_current();
    let two = Project::new(2, String::from("two"));
    App::build(vec![one, two])
}

fn type_text(app: &mut App, text: &str) {
    for c in text.chars() {
        assert_eq!(app.handle_key(Key::Char(c)), Effect::Nothing);
    }
}

#[test]
fn quit_saves_and_changes_nothing() {
    let mut app = sample();
    assert_eq!(app.handle_key(Key::Char('q')), Effect::SaveAndQuit);
    assert_eq!(app.screen_mode, ScreenMode::Main);
    assert_eq!(app.current_task_id, 2);
}

#[test]
fn enter_in_adding_mode_adds_task() {
    let mut app = sample();
    app.handle_key(Key::Char('a'));
    assert_eq!(app.screen_mode, ScreenMode::AddingTask);
    type_text(&mut app, "buy mlk");
    app.handle_key(Key::Left);
    app.handle_key(Key::Backspace);
    app.handle_key(Key::Char('i'));
    app.handle_key(Key::Char('l'));
    assert_eq!(app.handle_key(Key::Enter), Effect::Save);
    assert_eq!(app.screen_mode, ScreenMode::Main);
    assert_eq!(app.cursor_manager.string(), "");
    let last = app.projects[0].tasks.last().unwrap();
    assert_eq!(last.title, "buy milk");
    assert_eq!(last.id, 8);
    assert_eq!(last.state, TaskState::Todo);
    assert_eq!(app.current_task_id, 8);
}

#[test]
fn esc_discards_editor() {
    let mut app = sample();
    app.handle_key(Key::Char('a'));
    type_text(&mut app, "draft");
    assert_eq!(app.handle_key(Key::Esc), Effect::Nothing);
    assert_eq!(app.screen_mode, ScreenMode::Main);
    assert_eq!(app.cursor_manager.string(), "");
    assert_eq!(app.cursor_manager.cursor_position, 0);
    assert_eq!(app.projects[0].tasks.len(), 3);
}

#[test]
fn delete_needs_confirmation() {
    let mut app = sample();
    app.handle_key(Key::Down);
    assert_eq!(app.current_task_id, 4);
    app.handle_key(Key::Char('d'));
    assert_eq!(app.screen_mode, ScreenMode::DeletingTask);
    assert_eq!(app.handle_key(Key::Char('n')), Effect::Nothing);
    assert_eq!(app.screen_mode, ScreenMode::Main);
    assert_eq!(app.projects[0].tasks.len(), 3);
    app.handle_key(Key::Char('d'));
    assert_eq!(app.handle_key(Key::Esc), Effect::Nothing);
    assert_eq!(app.projects[0].tasks.len(), 3);
    app.handle_key(Key::Char('d'));
    assert_eq!(app.handle_key(Key::Char('x')), Effect::Nothing);
    assert_eq!(app.screen_mode, ScreenMode::DeletingTask);
    assert_eq!(app.handle_key(Key::Char('y')), Effect::Save);
    assert_eq!(app.screen_mode, ScreenMode::Main);
    assert_eq!(app.projects[0].tasks.len(), 2);
    assert_eq!(app.current_task_id, 2);
}

#[test]
fn rename_task_and_project_by_keys() {
    let mut app = sample();
    app.handle_key(Key::Char('j'));
    app.handle_key(Key::Char('r'));
    assert_eq!(app.screen_mode, ScreenMode::RenamingTask);
    assert_eq!(app.cursor_manager.string(), "t4");
    type_text(&mut app, "!");
    assert_eq!(app.handle_key(Key::Enter), Effect::Save);
    assert_eq!(app.projects[0].tasks[1].title, "t4!");
    assert_eq!(app.projects[0].tasks[0].title, "t2");

    app.handle_key(Key::Char('p'));
    assert_eq!(app.screen_mode, ScreenMode::RenamingProject);
    assert_eq!(app.cursor_manager.string(), "one");
    app.handle_key(Key::Backspace);
    assert_eq!(app.handle_key(Key::Enter), Effect::Save);
    assert_eq!(app.get_current_project_name(), "on");
    assert_eq!(app.screen_mode, ScreenMode::Main);
}

#[test]
fn rename_key_on_empty_project_stays_in_main() {
    let mut app = sample();
    app.handle_key(Key::Right);
    assert_eq!(app.current_project_id, 2);
    assert_eq!(app.handle_key(Key::Char('r')), Effect::Nothing);
    assert_eq!(app.screen_mode, ScreenMode::Main);
}

#[test]
fn new_project_key() {
    let mut app = sample();
    app.handle_key(Key::Char('n'));
    assert_eq!(app.screen_mode, ScreenMode::RenamingProject);
    assert_eq!(app.projects.len(), 3);
    assert_eq!(app.current_project_id, 3);
    type_text(&mut app, "Later");
    app.handle_key(Key::Enter);
    assert_eq!(app.get_current_project_name(), "Later");
}

#[test]
fn main_keys_toggle_cancel_and_move() {
    let mut app = sample();
    app.handle_key(Key::Enter);
    assert_eq!(app.projects[0].tasks[0].state, TaskState::Completed);
    app.handle_key(Key::Char('c'));
    assert_eq!(app.projects[0].tasks[0].state, TaskState::Canceled);
    app.handle_key(Key::Char('j'));
    app.handle_key(Key::Down);
    assert_eq!(app.current_task_id, 7);
    app.handle_key(Key::Up);
    app.handle_key(Key::Char('k'));
    assert_eq!(app.current_task_id, 2);
    assert_eq!(app.handle_key(Key::Other), Effect::Nothing);
    assert_eq!(app.handle_key(Key::Char('z')), Effect::Nothing);
    app.handle_key(Key::Left);
    assert_eq!(app.current_project_id, 2);
}
