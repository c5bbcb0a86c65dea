use std::collections::VecDeque;

use task_tracker::handlers;
use task_tracker::store::Store;
use task_tracker::task::{NewTask, TaskStatus};
use task_tracker::tasks::{apply_effect, TaskEvent, TaskProcessor};

fn new_task(creator: &str) -> NewTask {
    NewTask {
        creator: creator.to_string(),
        branch: "main".to_string(),
        svn_merge_number: "1".to_string(),
    }
}

fn create(store: &mut Store, creator: &str, when: &str) -> (i64, TaskEvent) {
    let (task, event) = handlers::create_task(store, new_task(creator), when.to_string())
        .expect("create accepted");
    (task.id, event)
}

fn status_of(store: &Store, id: i64) -> Option<TaskStatus> {
    store.list_all().into_iter().find(|t| t.id == id).map(|t| t.status)
}

#[test]
fn startup_with_no_live_rows_yields_an_empty_queue() {
    let s = Store::new();
    let p = TaskProcessor::new(s.list_live());
    assert_eq!(p.queue_len(), 0);
    assert_eq!(p.running_id(), None);
}

#[test]
fn restart_requeues_a_persisted_pending_row() {
    let mut s = Store::new();
    let (id, _) = create(&mut s, "alice", "2024-02-02 09:00:00");
    // A process restart: a fresh dispatcher reconciles from the same store.
    let p = TaskProcessor::new(s.list_live());
    let queued = p.queue_tasks();
    assert_eq!(queued.len(), 1);
    assert_eq!(queued[0].id, id);
    assert_eq!(queued[0].created_at, "2024-02-02 09:00:00");
    assert_eq!(queued[0].status, TaskStatus::Pending);
}

#[test]
fn restart_adopts_an_orphaned_running_row_as_pending() {
    let mut s = Store::new();
    let (id, _) = create(&mut s, "alice", "t0");
    s.set_status(id, TaskStatus::Running);
    let p = TaskProcessor::new(s.list_live());
    let queued = p.queue_tasks();
    assert_eq!(queued.len(), 1);
    assert_eq!(queued[0].id, id);
    assert_eq!(queued[0].status, TaskStatus::Pending);
    assert_eq!(p.running_id(), None);
}

#[test]
fn restart_ignores_terminal_rows() {
    let mut s = Store::new();
    let (a, _) = create(&mut s, "a", "t0");
    let (b, _) = create(&mut s, "b", "t1");
    let (c, _) = create(&mut s, "c", "t2");
    let (d, _) = create(&mut s, "d", "t3");
    s.set_status(a, TaskStatus::Stopped);
    s.set_status(b, TaskStatus::Cancelled);
    s.set_status(c, TaskStatus::Completed);
    s.set_status(d, TaskStatus::Failed);
    let p = TaskProcessor::new(s.list_live());
    assert_eq!(p.queue_len(), 0);
}

#[test]
fn create_enqueues_exactly_once_and_stop_removes() {
    let mut s = Store::new();
    let mut p = TaskProcessor::new(s.list_live());
    let (id, ev) = create(&mut s, "alice", "t0");
    p.step(&mut s, ev);
    let ids = p.queue_ids();
    assert_eq!(ids.iter().filter(|&&q| q == id).count(), 1);
    p.step(&mut s, TaskEvent::Stop(id));
    assert_eq!(p.queue_ids().iter().filter(|&&q| q == id).count(), 0);
    assert!(!p.contains_id(id));
    assert_eq!(status_of(&s, id), Some(TaskStatus::Stopped));
}

#[test]
fn queue_never_holds_two_entries_with_one_id() {
    let mut s = Store::new();
    let mut p = TaskProcessor::new(s.list_live());
    let mut ids = Vec::new();
    for n in 0..4 {
        let (id, ev) = create(&mut s, &format!("user{}", n), "t");
        p.step(&mut s, ev);
        ids.push(id);
    }
    p.step(&mut s, TaskEvent::Stop(ids[1]));
    p.step(&mut s, TaskEvent::Delete(ids[2]));
    let queued = p.queue_ids();
    for id in &queued {
        assert_eq!(queued.iter().filter(|&&q| q == *id).count(), 1);
    }
    assert_eq!(queued, vec![ids[0], ids[3]]);
}

#[test]
fn delete_then_stop_leaves_no_trace() {
    let mut s = Store::new();
    let mut p = TaskProcessor::new(s.list_live());
    let (id, ev) = create(&mut s, "alice", "t0");
    p.step(&mut s, ev);
    p.step(&mut s, TaskEvent::Delete(id));
    p.step(&mut s, TaskEvent::Stop(id));
    assert!(status_of(&s, id).is_none());
    assert!(!p.contains_id(id));
    assert_eq!(p.queue_len(), 0);
}

#[test]
fn run_consumes_events_in_send_order() {
    let mut s = Store::new();
    let mut p = TaskProcessor::new(s.list_live());
    let (a, ev_a) = create(&mut s, "a", "t0");
    let (b, ev_b) = create(&mut s, "b", "t1");
    let (c, ev_c) = create(&mut s, "c", "t2");
    let mut events = VecDeque::new();
    events.push_back(ev_a);
    events.push_back(ev_b);
    // The stop of `a` was sent before `c` existed: it must act before
    // `c` is enqueued, and must not touch `c`.
    events.push_back(TaskEvent::Stop(a));
    events.push_back(ev_c);
    p.run(&mut s, events);
    assert_eq!(p.queue_ids(), vec![b, c]);
    assert_eq!(status_of(&s, a), Some(TaskStatus::Stopped));
    assert_eq!(status_of(&s, b), Some(TaskStatus::Pending));
    assert_eq!(status_of(&s, c), Some(TaskStatus::Pending));
}

#[test]
fn stop_of_a_queued_sibling_keeps_the_rest_in_order() {
    let mut s = Store::new();
    let mut p = TaskProcessor::new(s.list_live());
    let (a, ev_a) = create(&mut s, "alice", "t0");
    let (b, ev_b) = create(&mut s, "bob", "t1");
    p.step(&mut s, ev_a);
    p.step(&mut s, ev_b);
    p.step(&mut s, TaskEvent::Stop(a));
    assert_eq!(p.queue_ids(), vec![b]);
    assert_eq!(status_of(&s, a), Some(TaskStatus::Stopped));
    assert_eq!(status_of(&s, b), Some(TaskStatus::Pending));
}

#[test]
fn execution_stub_walks_the_status_machine() {
    let mut s = Store::new();
    let mut p = TaskProcessor::new(s.list_live());
    let (id, ev) = create(&mut s, "alice", "t0");
    p.step(&mut s, ev);
    let before = status_of(&s, id).unwrap();

    let eff = p.start_next().expect("queue head starts");
    apply_effect(&mut s, &eff);
    let running = status_of(&s, id).unwrap();
    assert!(before.is_edge(running));
    assert_eq!(running, TaskStatus::Running);
    assert_eq!(p.running_id(), Some(id));
    assert_eq!(p.queue_len(), 0);

    let eff = p.finish_running(true).expect("a task was running");
    apply_effect(&mut s, &eff);
    let done = status_of(&s, id).unwrap();
    assert!(running.is_edge(done));
    assert_eq!(done, TaskStatus::Completed);
    assert_eq!(p.running_id(), None);
}

#[test]
fn failed_execution_records_failed() {
    let mut s = Store::new();
    let mut p = TaskProcessor::new(s.list_live());
    let (id, ev) = create(&mut s, "alice", "t0");
    p.step(&mut s, ev);
    let eff = p.start_next().unwrap();
    apply_effect(&mut s, &eff);
    let eff = p.finish_running(false).unwrap();
    apply_effect(&mut s, &eff);
    assert_eq!(status_of(&s, id), Some(TaskStatus::Failed));
}

#[test]
fn stop_cancels_the_running_task() {
    let mut s = Store::new();
    let mut p = TaskProcessor::new(s.list_live());
    let (id, ev) = create(&mut s, "alice", "t0");
    p.step(&mut s, ev);
    let eff = p.start_next().unwrap();
    apply_effect(&mut s, &eff);
    let eff = p.step(&mut s, TaskEvent::Stop(id));
    assert!(eff.cancel_running);
    assert_eq!(p.running_id(), None);
    assert_eq!(status_of(&s, id), Some(TaskStatus::Stopped));
}

#[test]
fn start_next_is_idle_without_work_or_with_a_runner() {
    let mut s = Store::new();
    let mut p = TaskProcessor::new(s.list_live());
    assert!(p.start_next().is_none());
    let (_, ev) = create(&mut s, "a", "t0");
    p.step(&mut s, ev);
    let (_, ev) = create(&mut s, "b", "t1");
    p.step(&mut s, ev);
    let eff = p.start_next().unwrap();
    apply_effect(&mut s, &eff);
    // One task is already running: the second must wait.
    assert!(p.start_next().is_none());
    assert!(p.finish_running(true).is_some());
}
