use task_tracker::store::Store;
use task_tracker::task::{NewTask, TaskStatus};

fn new_task(creator: &str, branch: &str, svn: &str) -> NewTask {
    NewTask {
        creator: creator.to_string(),
        branch: branch.to_string(),
        svn_merge_number: svn.to_string(),
    }
}

#[test]
fn empty_store_lists_nothing() {
    let s = Store::new();
    assert!(s.list_all().is_empty());
    assert!(s.list_live().is_empty());
}

#[test]
fn insert_assigns_monotonic_ids_from_one() {
    let mut s = Store::new();
    let a = s.insert(new_task("alice", "main", "42"), "2024-01-01 10:00:00".to_string());
    let b = s.insert(new_task("bob", "dev", "43"), "2024-01-01 10:00:01".to_string());
    assert_eq!(a.id, 1);
    assert_eq!(b.id, 2);
    assert_eq!(a.status, TaskStatus::Pending);
    assert_eq!(a.creator, "alice");
    assert_eq!(a.branch, "main");
    assert_eq!(a.svn_merge_number, "42");
    assert_eq!(a.created_at, "2024-01-01 10:00:00");
    let all = s.list_all();
    assert_eq!(all.len(), 2);
    assert_eq!(all[0].id, 1);
    assert_eq!(all[1].id, 2);
}

#[test]
fn set_status_is_idempotent_on_unknown_ids() {
    let mut s = Store::new();
    s.insert(new_task("alice", "main", "1"), "t0".to_string());
    s.set_status(999, TaskStatus::Stopped);
    let all = s.list_all();
    assert_eq!(all.len(), 1);
    assert_eq!(all[0].status, TaskStatus::Pending);
}

#[test]
fn delete_is_idempotent_on_unknown_ids() {
    let mut s = Store::new();
    s.insert(new_task("alice", "main", "1"), "t0".to_string());
    s.delete(999);
    assert_eq!(s.list_all().len(), 1);
}

#[test]
fn delete_removes_the_row_and_its_log() {
    let mut s = Store::new();
    let t = s.insert(new_task("alice", "main", "1"), "t0".to_string());
    s.set_log(t.id, "line one".to_string());
    assert_eq!(s.get_log(t.id), "line one");
    s.delete(t.id);
    assert!(s.list_all().is_empty());
    assert_eq!(s.get_log(t.id), "No log found");
}

#[test]
fn get_log_of_a_missing_id_is_the_sentinel() {
    let s = Store::new();
    assert_eq!(s.get_log(9999), "No log found");
}

#[test]
fn later_log_entries_shadow_earlier_ones() {
    let mut s = Store::new();
    let t = s.insert(new_task("alice", "main", "1"), "t0".to_string());
    s.set_log(t.id, "first".to_string());
    s.set_log(t.id, "second".to_string());
    assert_eq!(s.get_log(t.id), "second");
}

#[test]
fn list_live_excludes_stopped_and_cancelled_only() {
    let mut s = Store::new();
    let a = s.insert(new_task("a", "main", "1"), "t0".to_string());
    let b = s.insert(new_task("b", "main", "2"), "t1".to_string());
    let c = s.insert(new_task("c", "main", "3"), "t2".to_string());
    let d = s.insert(new_task("d", "main", "4"), "t3".to_string());
    let e = s.insert(new_task("e", "main", "5"), "t4".to_string());
    s.set_status(a.id, TaskStatus::Stopped);
    s.set_status(b.id, TaskStatus::Cancelled);
    s.set_status(c.id, TaskStatus::Completed);
    s.set_status(d.id, TaskStatus::Running);
    let live: Vec<i64> = s.list_live().iter().map(|t| t.id).collect();
    assert_eq!(live, vec![c.id, d.id, e.id]);
}
