use api_project::{Task, TaskManager};

fn text(s: &str) -> Option<String> {
    Some(s.to_string())
}

#[test]
fn new_table_is_empty() {
    let mut manager = TaskManager::new();
    assert_eq!(manager.all().len(), 0);
    assert!(manager.has_room());
    assert_eq!(manager.get(0).err(), Some("No such task"));
}

#[test]
fn add_then_get_returns_same_text_not_done() {
    let mut manager = TaskManager::new();
    let id = manager.add(text("buy milk"));
    assert_eq!(id, 0);
    let task: &Task = manager.get(id).unwrap();
    assert_eq!(task.text, "buy milk");
    assert!(!task.done);
}

#[test]
fn ids_are_strictly_increasing() {
    let mut manager = TaskManager::new();
    let mut last = manager.add(text("first"));
    assert_eq!(last, 0);
    for i in 1..50usize {
        let id = manager.add(text("next"));
        assert!(id > last);
        assert_eq!(id, i);
        last = id;
    }
}

#[test]
fn ids_are_not_reused_after_delete() {
    let mut manager = TaskManager::new();
    assert_eq!(manager.add(text("a")), 0);
    assert_eq!(manager.add(text("b")), 1);
    assert_eq!(manager.delete(1), Ok(()));
    assert_eq!(manager.delete(0), Ok(()));
    assert_eq!(manager.add(text("c")), 2);
    assert_eq!(manager.set(2, None, Some(true)), Ok(()));
    assert_eq!(manager.add(text("d")), 3);
    assert!(manager.get(0).is_err());
    assert!(manager.get(1).is_err());
    assert_eq!(manager.get(2).unwrap().text, "c");
}

#[test]
fn set_done_only_keeps_text() {
    let mut manager = TaskManager::new();
    let id = manager.add(text("write report"));
    assert_eq!(manager.set(id, None, Some(true)), Ok(()));
    let task = manager.get(id).unwrap();
    assert_eq!(task.text, "write report");
    assert!(task.done);
}

#[test]
fn set_text_only_keeps_done() {
    let mut manager = TaskManager::new();
    let id = manager.add(text("write report"));
    assert_eq!(manager.set(id, None, Some(true)), Ok(()));
    assert_eq!(manager.set(id, text("file report"), None), Ok(()));
    let task = manager.get(id).unwrap();
    assert_eq!(task.text, "file report");
    assert!(task.done);
}

#[test]
fn set_both_fields() {
    let mut manager = TaskManager::new();
    let id = manager.add(text("a"));
    assert_eq!(manager.set(id, text("b"), Some(true)), Ok(()));
    assert_eq!(manager.set(id, text("c"), Some(false)), Ok(()));
    let task = manager.get(id).unwrap();
    assert_eq!(task.text, "c");
    assert!(!task.done);
}

#[test]
fn set_nothing_changes_nothing() {
    let mut manager = TaskManager::new();
    let id = manager.add(text("unchanged"));
    assert_eq!(manager.set(id, None, None), Ok(()));
    let task = manager.get(id).unwrap();
    assert_eq!(task.text, "unchanged");
    assert!(!task.done);
    assert_eq!(manager.all().len(), 1);
}

#[test]
fn set_touches_no_other_task() {
    let mut manager = TaskManager::new();
    let a = manager.add(text("a"));
    let b = manager.add(text("b"));
    assert_eq!(manager.set(a, text("z"), Some(true)), Ok(()));
    let other = manager.get(b).unwrap();
    assert_eq!(other.text, "b");
    assert!(!other.done);
}

#[test]
fn set_on_absent_id_is_not_found() {
    let mut manager = TaskManager::new();
    assert_eq!(manager.set(0, text("x"), Some(true)), Err("No such task"));
    manager.add(text("a"));
    assert_eq!(manager.set(1, None, None), Err("No such task"));
    assert_eq!(manager.all().len(), 1);
    assert_eq!(manager.get(0).unwrap().text, "a");
}

#[test]
fn get_on_absent_id_is_not_found() {
    let mut manager = TaskManager::new();
    manager.add(text("a"));
    assert_eq!(manager.get(1).err(), Some("No such task"));
    assert_eq!(manager.get(usize::MAX).err(), Some("No such task"));
}

#[test]
fn delete_then_get_is_not_found() {
    let mut manager = TaskManager::new();
    let id = manager.add(text("a"));
    assert_eq!(manager.delete(id), Ok(()));
    assert_eq!(manager.get(id).err(), Some("No such task"));
}

#[test]
fn delete_twice_is_not_found_the_second_time() {
    let mut manager = TaskManager::new();
    let id = manager.add(text("a"));
    assert_eq!(manager.delete(id), Ok(()));
    assert_eq!(manager.delete(id), Err("No such task"));
}

#[test]
fn delete_on_empty_table_is_not_found() {
    let mut manager = TaskManager::new();
    assert_eq!(manager.delete(7), Err("No such task"));
}

#[test]
fn all_holds_adds_less_deletes() {
    let mut manager = TaskManager::new();
    for _ in 0..10 {
        manager.add(text("t"));
    }
    for id in [1usize, 4, 7] {
        assert_eq!(manager.delete(id), Ok(()));
    }
    assert_eq!(manager.delete(4), Err("No such task"));
    let all = manager.all();
    assert_eq!(all.len(), 7);
    for id in [0usize, 2, 3, 5, 6, 8, 9] {
        assert_eq!(all.get(&id).unwrap().text, "t");
    }
    for id in [1usize, 4, 7, 10] {
        assert!(!all.contains_key(&id));
    }
}

#[test]
fn empty_text_is_a_text() {
    let mut manager = TaskManager::new();
    let id = manager.add(text(""));
    assert_eq!(manager.get(id).unwrap().text, "");
}
