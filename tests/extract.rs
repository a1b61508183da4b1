use mail_todo::extract::{Extraction, Fetch};
use mail_todo::{Task, TaskSet};

fn header(subject: &str) -> Vec<Vec<u8>> {
    vec![format!("From: x@y\r\nSubject: {}\r\n\r\n", subject).into_bytes()]
}

/// Runs one cycle; `uids[i]` and `headers[i]` are what message `i + 1` gives.
fn run(uids: &[Option<u64>], headers: &[Option<Vec<Vec<u8>>>]) -> Option<TaskSet> {
    let mut x = Extraction::new(uids.len() as u32);
    loop {
        match x.next_fetch() {
            Fetch::Uid(n) => x.uid_fetched(uids[n as usize - 1]),
            Fetch::Header(n) => x.header_fetched(headers[n as usize - 1].clone()),
            Fetch::Done => return x.finish(),
        }
    }
}

#[test]
fn malformed_third_header_is_skipped() {
    let uids = [Some(1), Some(2), Some(3), Some(4), Some(5)];
    let headers = [
        Some(header("one")),
        Some(header("two")),
        Some(vec![b"garbage without a subject line".to_vec()]),
        Some(header("four")),
        Some(header("five")),
    ];
    let t = run(&uids, &headers).unwrap();
    assert_eq!(t.len(), 4);
    assert!(t.contains(&Task { title: "one ".to_string(), uid: 1 }));
    assert!(t.contains(&Task { title: "two ".to_string(), uid: 2 }));
    assert!(!t.has_uid(3));
    assert!(t.contains(&Task { title: "four ".to_string(), uid: 4 }));
    assert!(t.contains(&Task { title: "five ".to_string(), uid: 5 }));
}

#[test]
fn failed_header_fetch_is_skipped() {
    let t = run(&[Some(1), Some(2)], &[None, Some(header("b"))]).unwrap();
    assert_eq!(t.len(), 1);
    assert!(t.has_uid(2));
}

#[test]
fn failed_uid_fails_the_cycle() {
    let r = run(&[Some(1), None, Some(3)], &[Some(header("a")), None, Some(header("c"))]);
    assert!(r.is_none());
}

#[test]
fn fetch_order_is_uid_then_header() {
    let mut x = Extraction::new(2);
    assert_eq!(x.next_fetch(), Fetch::Uid(1));
    x.uid_fetched(Some(40));
    assert_eq!(x.next_fetch(), Fetch::Header(1));
    x.header_fetched(Some(header("a")));
    assert_eq!(x.next_fetch(), Fetch::Uid(2));
    x.uid_fetched(Some(41));
    assert_eq!(x.next_fetch(), Fetch::Header(2));
    x.header_fetched(Some(header("b")));
    assert_eq!(x.next_fetch(), Fetch::Done);
    assert_eq!(x.finish().unwrap().len(), 2);
}

#[test]
fn empty_folder_gives_empty_set() {
    let t = run(&[], &[]).unwrap();
    assert_eq!(t.len(), 0);
}

#[test]
fn repeated_cycles_in_any_order_agree() {
    let first = run(
        &[Some(1), Some(2), Some(3)],
        &[Some(header("a")), Some(header("b")), Some(header("c"))],
    )
    .unwrap();
    let second = run(
        &[Some(3), Some(1), Some(2)],
        &[Some(header("c")), Some(header("a")), Some(header("b"))],
    )
    .unwrap();
    assert_eq!(first.len(), second.len());
    for t in first.to_vec() {
        assert!(second.contains(&t));
    }
}

#[test]
fn deleted_uid_is_absent_after_refresh() {
    let before = run(&[Some(1), Some(2)], &[Some(header("a")), Some(header("b"))]).unwrap();
    assert!(before.has_uid(2));
    let after = run(&[Some(1)], &[Some(header("a"))]).unwrap();
    assert!(!after.has_uid(2));
    assert_eq!(after.len(), 1);
}
