use mail_todo::{Task, TaskSet};

#[test]
fn set_keeps_one_of_each_task() {
    let mut s = TaskSet::new();
    assert!(s.insert(Task { title: "a".to_string(), uid: 1 }));
    assert!(!s.insert(Task { title: "a".to_string(), uid: 1 }));
    assert!(s.insert(Task { title: "a".to_string(), uid: 2 }));
    assert!(s.insert(Task { title: "b".to_string(), uid: 1 }));
    assert_eq!(s.len(), 3);
    assert!(s.contains(&Task { title: "b".to_string(), uid: 1 }));
    assert!(!s.contains(&Task { title: "b".to_string(), uid: 2 }));
    assert!(s.has_uid(2));
    assert!(!s.has_uid(3));
    assert_eq!(s.to_vec().len(), 3);
}

#[test]
fn tasks_compare_by_both_fields() {
    let a = Task { title: "x".to_string(), uid: 1 };
    assert_eq!(a, Task { title: "x".to_string(), uid: 1 });
    assert_ne!(a, Task { title: "x".to_string(), uid: 2 });
    assert_ne!(a, Task { title: "y".to_string(), uid: 1 });
}
