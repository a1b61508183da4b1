use mail_todo::{Effect, Engine, Message, Phase, Task, TaskSet};
use std::collections::VecDeque;

fn fixture() -> TaskSet {
    let mut s = TaskSet::new();
    s.insert(Task { title: "Buy milk ".to_string(), uid: 7 });
    s.insert(Task { title: "Call mom ".to_string(), uid: 9 });
    s
}

fn is_wake(f: &Effect, awake: bool) -> bool {
    match f {
        Effect::Wake(Message::Awake) => awake,
        Effect::Wake(Message::Sleep) => !awake,
        _ => false,
    }
}

#[test]
fn new_engine_asks_to_connect() {
    let (e, first) = Engine::new(3);
    assert!(matches!(first, Message::Connect));
    assert_eq!(e.phase, Phase::Ready);
    assert!(!e.session);
    assert_eq!(e.slept, 0);
}

#[test]
fn start_fail_twice_then_connect_and_list() {
    let (mut e, first) = Engine::new(2);
    let mut queue: VecDeque<Message> = VecDeque::new();
    queue.push_back(first);
    let mut outcomes = vec![false, false, true].into_iter();
    let mut ui: Vec<String> = Vec::new();
    let mut attempts = 0;
    let mut steps = 0;
    while let Some(m) = queue.pop_front() {
        steps += 1;
        assert!(steps < 100);
        let mut pending = e.handle(m);
        let mut done = false;
        while !pending.is_empty() {
            let mut next = Vec::new();
            for f in pending {
                match f {
                    Effect::Notify(Message::NotConnected) => ui.push("not connected".to_string()),
                    Effect::Notify(Message::Connected) => ui.push("connected".to_string()),
                    Effect::Notify(Message::Tasks(t)) => {
                        assert_eq!(t.len(), 2);
                        assert!(t.contains(&Task { title: "Buy milk ".to_string(), uid: 7 }));
                        assert!(t.contains(&Task { title: "Call mom ".to_string(), uid: 9 }));
                        ui.push("tasks".to_string());
                        done = true;
                    }
                    Effect::Notify(_) => panic!("unexpected status"),
                    Effect::Wake(m) => queue.push_back(m),
                    Effect::OpenSession => {
                        attempts += 1;
                        next.extend(e.connect_finished(outcomes.next().unwrap()));
                    }
                    Effect::FetchTasks => next.extend(e.poll_finished(Some(fixture()))),
                    Effect::Pause => {}
                    Effect::RemoveMessage(_) | Effect::Logout => panic!("unexpected effect"),
                }
            }
            pending = next;
        }
        if done {
            break;
        }
    }
    assert_eq!(attempts, 3);
    assert_eq!(
        ui,
        vec!["not connected", "not connected", "not connected", "connected", "tasks"]
    );
    assert!(e.session);
    assert_eq!(e.slept, 0);
}

#[test]
fn quit_with_session_logs_out() {
    let (mut e, _) = Engine::new(3);
    e.handle(Message::Connect);
    e.connect_finished(true);
    let fx = e.handle(Message::Quit);
    assert_eq!(fx.len(), 1);
    assert!(matches!(fx[0], Effect::Logout));
    assert!(e.is_stopped());
    assert!(!e.session);
}

#[test]
fn quit_without_session_just_stops() {
    let (mut e, _) = Engine::new(3);
    let fx = e.handle(Message::Quit);
    assert!(fx.is_empty());
    assert!(e.is_stopped());
}

#[test]
fn quit_while_sleeping_after_failed_connect() {
    let (mut e, _) = Engine::new(3);
    e.handle(Message::Connect);
    e.connect_finished(false);
    e.handle(Message::Sleep);
    let fx = e.handle(Message::Quit);
    assert!(fx.is_empty());
    assert_eq!(e.phase, Phase::Stopped);
}

#[test]
fn sleep_ticks_wake_once_per_cadence() {
    let (mut e, _) = Engine::new(3);
    let mut awakes = 0;
    for tick in 1..=9 {
        let fx = e.handle(Message::Sleep);
        assert_eq!(fx.len(), 2);
        assert!(matches!(fx[0], Effect::Pause));
        if tick % 3 == 0 {
            assert!(is_wake(&fx[1], true));
            assert_eq!(e.slept, 0);
            awakes += 1;
        } else {
            assert!(is_wake(&fx[1], false));
            assert_eq!(e.slept, tick % 3);
        }
    }
    assert_eq!(awakes, 3);
}

#[test]
fn cadence_one_wakes_every_tick() {
    let (mut e, _) = Engine::new(1);
    for _ in 0..4 {
        let fx = e.handle(Message::Sleep);
        assert!(is_wake(&fx[1], true));
    }
}

#[test]
fn two_deletes_are_applied_in_order() {
    let (mut e, _) = Engine::new(3);
    e.handle(Message::Connect);
    e.connect_finished(true);
    let a = e.handle(Message::Delete(11));
    assert_eq!(e.phase, Phase::Ready);
    let b = e.handle(Message::Delete(12));
    let all: Vec<Effect> = a.into_iter().chain(b).collect();
    assert_eq!(all.len(), 4);
    assert!(matches!(all[0], Effect::RemoveMessage(11)));
    assert!(is_wake(&all[1], true));
    assert!(matches!(all[2], Effect::RemoveMessage(12)));
    assert!(is_wake(&all[3], true));
}

#[test]
fn delete_without_session_is_ignored() {
    let (mut e, _) = Engine::new(3);
    let fx = e.handle(Message::Delete(5));
    assert!(fx.is_empty());
    assert_eq!(e.phase, Phase::Ready);
}

#[test]
fn awake_without_session_reconnects() {
    let (mut e, _) = Engine::new(3);
    let fx = e.handle(Message::Awake);
    assert_eq!(fx.len(), 1);
    assert!(matches!(fx[0], Effect::Wake(Message::Connect)));
}

#[test]
fn failed_poll_drops_session_and_reconnects() {
    let (mut e, _) = Engine::new(3);
    e.handle(Message::Connect);
    e.connect_finished(true);
    let fx = e.handle(Message::Awake);
    assert!(matches!(fx[0], Effect::FetchTasks));
    assert_eq!(e.phase, Phase::Polling);
    let fx = e.poll_finished(None);
    assert_eq!(fx.len(), 1);
    assert!(matches!(fx[0], Effect::Wake(Message::Connect)));
    assert!(!e.session);
    assert_eq!(e.phase, Phase::Ready);
}

#[test]
fn successful_poll_resets_pacer() {
    let (mut e, _) = Engine::new(5);
    e.handle(Message::Connect);
    e.connect_finished(true);
    e.handle(Message::Sleep);
    e.handle(Message::Sleep);
    assert_eq!(e.slept, 2);
    e.handle(Message::Awake);
    let fx = e.poll_finished(Some(fixture()));
    assert!(matches!(fx[0], Effect::Notify(Message::Tasks(_))));
    assert!(is_wake(&fx[1], false));
    assert_eq!(e.slept, 0);
}

#[test]
fn connect_reports_status_first() {
    let (mut e, _) = Engine::new(3);
    let fx = e.handle(Message::Connect);
    assert!(matches!(fx[0], Effect::Notify(Message::NotConnected)));
    assert!(matches!(fx[1], Effect::OpenSession));
    assert_eq!(e.phase, Phase::Connecting);
    let fx = e.connect_finished(true);
    assert!(matches!(fx[0], Effect::Notify(Message::Connected)));
    assert!(is_wake(&fx[1], true));
    let (mut e, _) = Engine::new(3);
    e.handle(Message::Connect);
    let fx = e.connect_finished(false);
    assert_eq!(fx.len(), 1);
    assert!(is_wake(&fx[0], false));
    assert!(!e.session);
}

#[test]
fn only_commands_reach_the_engine() {
    assert!(Message::Quit.is_engine_command());
    assert!(Message::Delete(1).is_engine_command());
    assert!(!Message::Connected.is_engine_command());
    assert!(!Message::NotConnected.is_engine_command());
    assert!(!Message::Tasks(TaskSet::new()).is_engine_command());
}
