use tuido::stats::{get_checkbox, Stats};
use tuido::task::TaskState;

#[test]
fn stats_line() {
    let mut s = Stats::new();
    assert_eq!(s.get_string(), " Tasks: 0 - Completed: 0 - Canceled: 0 ");
    s.add_task(&TaskState::Todo);
    s.add_task(&TaskState::Completed);
    s.add_task(&TaskState::Canceled);
    s.add_task(&TaskState::Completed);
    assert_eq!(s.tasks, 4);
    assert_eq!(s.completed, 2);
    assert_eq!(s.canceled, 1);
    assert_eq!(s.get_string(), " Tasks: 4 - Completed: 2 - Canceled: 1 ");
}

#[test]
fn stats_line_many_digits() {
    let mut s = Stats::new();
    for _ in 0..120 {
        s.add_task(&TaskState::Canceled);
    }
    assert_eq!(s.get_string(), " Tasks: 120 - Completed: 0 - Canceled: 120 ");
}

#[test]
fn checkbox_per_state() {
    assert_eq!(get_checkbox(&TaskState::Todo), "󰄰 ");
    assert_eq!(get_checkbox(&TaskState::Canceled), "󰍶 ");
    assert_eq!(get_checkbox(&TaskState::Completed), "󰗠 ");
}
