use tuido::editor::{CursorDirection, CursorManager};

#[test]
fn empty_editor_boundaries() {
    let mut m = CursorManager::new();
    m.delete();
    assert_eq!(m.cursor_position, 0);
    assert_eq!(m.string(), "");
    m.move_cursor(CursorDirection::Left);
    assert_eq!(m.cursor_position, 0);
    m.move_cursor(CursorDirection::Right);
    assert_eq!(m.cursor_position, 0);
}

#[test]
fn insert_at_caret() {
    let mut m = CursorManager::new();
    m.insert('a');
    m.insert('c');
    m.move_cursor(CursorDirection::Left);
    m.insert('b');
    assert_eq!(m.string(), "abc");
    assert_eq!(m.cursor_position, 2);
    m.move_cursor(CursorDirection::Right);
    m.move_cursor(CursorDirection::Right);
    assert_eq!(m.cursor_position, 3);
}

#[test]
fn delete_before_caret() {
    let mut m = CursorManager::new();
    m.set_string(String::from("héllo"));
    assert_eq!(m.cursor_position, 5);
    m.move_cursor(CursorDirection::Left);
    m.move_cursor(CursorDirection::Left);
    m.move_cursor(CursorDirection::Left);
    m.delete();
    assert_eq!(m.string(), "hllo");
    assert_eq!(m.cursor_position, 1);
}

#[test]
fn validate_hands_out_and_clears() {
    let mut m = CursorManager::new();
    m.set_string(String::from("title"));
    m.insert('!');
    assert_eq!(m.validate(), "title!");
    assert_eq!(m.string(), "");
    assert_eq!(m.cursor_position, 0);
    m.set_string(String::from("x"));
    m.clear();
    assert_eq!(m.string(), "");
    assert_eq!(m.cursor_position, 0);
}
