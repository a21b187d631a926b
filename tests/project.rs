use tuido::project::Project;

#[test]
fn add_task() {
    let mut project = Project::new(1, String::from("Projet 1"));

    project.add_task(1, String::from("Bonjour"));

    assert_eq!(project.tasks.len(), 1);
    assert_eq!(project.tasks[0].title, String::from("Bonjour"))
}

#[test]
fn delete_task() {
    let mut project = Project::new(1, String::from("Projet 1"));

    project.add_task(1, String::from("Bonjour"));
    project.add_task(2, String::from("Salut"));

    project.delete_task(1);

    assert_eq!(project.tasks.len(), 1);
    assert_eq!(project.tasks[0].title, String::from("Salut"))
}

#[test]
fn delete_missing_task_is_a_no_op() {
    let mut project = Project::new(1, String::from("P"));
    project.add_task(1, String::from("a"));
    project.delete_task(9);
    assert_eq!(project.tasks.len(), 1);
    assert_eq!(project.tasks[0].id, 1);
}

#[test]
fn new_task_belongs_to_project() {
    let mut project = Project::new(5, String::from("P"));
    project.add_task(3, String::from("a"));
    assert_eq!(project.tasks[0].project_id, 5);
    assert_eq!(project.tasks[0].id, 3);
    assert!(!project.is_current);
}

#[test]
fn project_task_edits_touch_only_matching_id() {
    let mut project = Project::new(1, String::from("P"));
    project.add_task(1, String::from("a"));
    project.add_task(2, String::from("b"));
    project.toggle_task_state(2);
    project.cancel_task(1);
    project.rename_task(2, String::from("renamed"));
    assert_eq!(format!("{:?}", project.tasks[0].state), "Canceled");
    assert_eq!(format!("{:?}", project.tasks[1].state), "Completed");
    assert_eq!(project.tasks[0].title, "a");
    assert_eq!(project.tasks[1].title, "renamed");
    project.rename(String::new());
    assert_eq!(project.name, "");
    project.toggle_current();
    assert!(project.is_current);
}
