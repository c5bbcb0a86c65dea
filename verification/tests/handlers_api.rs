use task_tracker::handlers;
use task_tracker::store::Store;
use task_tracker::task::{NewTask, TaskStatus};
use task_tracker::tasks::TaskProcessor;
use task_tracker::toast::{get_svg_for_toast, toast_alert_class, ToastType};

fn new_task(creator: &str, branch: &str, svn: &str) -> NewTask {
    NewTask {
        creator: creator.to_string(),
        branch: branch.to_string(),
        svn_merge_number: svn.to_string(),
    }
}

#[test]
fn create_returns_the_materialized_record() {
    let mut s = Store::new();
    let (task, _event) = handlers::create_task(
        &mut s,
        new_task("alice", "main", "42"),
        "2024-03-03 08:00:00".to_string(),
    )
    .expect("accepted");
    assert_eq!(task.id, 1);
    assert_eq!(task.creator, "alice");
    assert_eq!(task.branch, "main");
    assert_eq!(task.svn_merge_number, "42");
    assert_eq!(task.created_at, "2024-03-03 08:00:00");
    assert_eq!(task.status, TaskStatus::Pending);
    let listed = handlers::get_tasks(&s);
    assert_eq!(listed.len(), 1);
    assert_eq!(listed[0].id, 1);
    assert_eq!(listed[0].creator, "alice");
}

#[test]
fn create_with_the_error_hook_inserts_nothing() {
    let mut s = Store::new();
    let r = handlers::create_task(&mut s, new_task("error", "main", "1"), "t0".to_string());
    assert!(r.is_err());
    assert!(handlers::get_tasks(&s).is_empty());
    assert_eq!(handlers::create_error_body(), "测试错误！！！！！");
    // The next accepted create still gets id 1: nothing was consumed.
    let (task, _) = handlers::create_task(&mut s, new_task("alice", "main", "1"), "t1".to_string())
        .expect("accepted");
    assert_eq!(task.id, 1);
}

#[test]
fn empty_fields_are_accepted() {
    let mut s = Store::new();
    let (task, _) = handlers::create_task(&mut s, new_task("", "", ""), "t0".to_string())
        .expect("accepted");
    assert_eq!(task.creator, "");
    assert_eq!(task.branch, "");
    assert_eq!(task.svn_merge_number, "");
    assert_eq!(task.status, TaskStatus::Pending);
}

#[test]
fn stop_and_delete_of_an_unknown_id_succeed() {
    let mut s = Store::new();
    handlers::stop_task(&mut s, 4242);
    handlers::delete_task(&mut s, 4242);
    assert!(handlers::get_tasks(&s).is_empty());
    assert_eq!(handlers::stop_reply(true), (200, "Task stopped"));
    assert_eq!(handlers::delete_reply(true), (200, "Task deleted"));
}

#[test]
fn failure_replies_carry_the_500_prefixes() {
    assert_eq!(handlers::stop_reply(false), (500, "Failed to stop task: "));
    assert_eq!(handlers::delete_reply(false), (500, "Failed to delete task: "));
}

#[test]
fn stop_marks_one_task_and_leaves_the_sibling() {
    let mut s = Store::new();
    let (a, ev_a) = {
        let (t, ev) = handlers::create_task(&mut s, new_task("a", "main", "1"), "t0".to_string())
            .expect("accepted");
        (t.id, ev)
    };
    let (b, ev_b) = {
        let (t, ev) = handlers::create_task(&mut s, new_task("b", "main", "2"), "t1".to_string())
            .expect("accepted");
        (t.id, ev)
    };
    let mut p = TaskProcessor::new(Vec::new());
    p.step(&mut s, ev_a);
    p.step(&mut s, ev_b);
    let ev = handlers::stop_task(&mut s, a);
    p.step(&mut s, ev);
    let listed = handlers::get_tasks(&s);
    assert_eq!(listed.iter().find(|t| t.id == a).unwrap().status, TaskStatus::Stopped);
    assert_eq!(listed.iter().find(|t| t.id == b).unwrap().status, TaskStatus::Pending);
    assert_eq!(p.queue_ids(), vec![b]);
}

#[test]
fn delete_removes_the_row_from_the_listing() {
    let mut s = Store::new();
    let (task, _) = handlers::create_task(&mut s, new_task("a", "main", "1"), "t0".to_string())
        .expect("accepted");
    handlers::delete_task(&mut s, task.id);
    assert!(handlers::get_tasks(&s).iter().all(|t| t.id != task.id));
}

#[test]
fn logs_of_a_missing_id_reply_the_sentinel() {
    let s = Store::new();
    assert_eq!(handlers::get_logs(&s, 9999), "No log found");
}

#[test]
fn branches_and_commits_are_the_fixed_placeholders() {
    assert_eq!(handlers::get_branches(), vec!["main", "dev", "feature-xyz"]);
    assert_eq!(handlers::get_commits("main"), vec!["commit1", "commit2"]);
    assert_eq!(handlers::get_commits("anything"), vec!["commit1", "commit2"]);
}

#[test]
fn user_is_derived_from_the_peer_ip() {
    let u = handlers::create_user_from_ip("127.0.0.1".to_string());
    assert_eq!(u.username, "example_user");
    assert_eq!(u.computer_name, "example_computer");
    assert_eq!(u.ip, "127.0.0.1");
}

#[test]
fn toast_markup_depends_on_the_kind() {
    assert_eq!(
        get_svg_for_toast(&ToastType::Success),
        r#"<svg xmlns="http://www.w3.org/2000/svg" class="stroke-current flex-shrink-0 h-6 w-6" fill="none" viewBox="0 0 24 24"><path stroke-linecap="round" stroke-linejoin="round" stroke-width="2" d="M9 12l2 2 4-4m6 2a9 9 0 11-18 0 9 9 0 0118 0z" /></svg>"#
    );
    assert!(get_svg_for_toast(&ToastType::Warning).contains("13.856"));
    assert!(get_svg_for_toast(&ToastType::Error).contains("M10 14l2-2"));
    assert_eq!(toast_alert_class(&ToastType::Success), "alert-success");
    assert_eq!(toast_alert_class(&ToastType::Warning), "alert-warning");
    assert_eq!(toast_alert_class(&ToastType::Error), "alert-error");
}
