use tuido::task::{Task, TaskState};

#[test]
fn toggle_state() {
    let mut task = Task::new(1, 1, "Tache".to_string());

    assert!(matches!(task.state, TaskState::Todo));
    task.toggle_state();
    assert!(matches!(task.state, TaskState::Completed));
    task.toggle_state();
    assert!(matches!(task.state, TaskState::Todo));
}

#[test]
fn cancel() {
    let mut task = Task::new(1, 1, "Tache".to_string());

    task.cancel();
    assert!(matches!(task.state, TaskState::Canceled));
    task.toggle_state();
    assert!(matches!(task.state, TaskState::Todo));
}

#[test]
fn rename() {
    let mut task = Task::new(1, 1, "Salut".to_string());

    task.rename("Bonjour".to_string());
    assert_eq!(task.title, "Bonjour".to_string())
}

#[test]
fn canceled_toggled_twice_is_completed() {
    let mut task = Task::new(1, 1, "t".to_string());
    task.cancel();
    task.toggle_state();
    assert_eq!(task.state, TaskState::Todo);
    task.toggle_state();
    assert_eq!(task.state, TaskState::Completed);
}

#[test]
fn cancel_keeps_canceled() {
    let mut task = Task::new(1, 1, "t".to_string());
    task.toggle_state();
    task.cancel();
    assert_eq!(task.state, TaskState::Canceled);
    task.cancel();
    assert_eq!(task.state, TaskState::Canceled);
}
