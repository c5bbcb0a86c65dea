//! The HTTP surface's decisions, freed of transport: what each endpoint
//! computes and replies, and which event it emits after a successful store
//! write. The service shell parses requests, calls these against its
//! database, and serializes the replies.

use vstd::prelude::*;
use crate::rows::{remove_id, views_of};
use crate::store::{log_lookup, no_log_text, set_status_rows, Store};
use crate::task::{NewTask, Task, TaskStatus};
use crate::tasks::{row_stored, EventView, TaskEvent};
use crate::user::User;

verus! {

/// The deliberate, documented test hook: a create whose `creator` is
/// exactly `"error"` is rejected with the fixed failure body.
pub fn create_rejected(new_task: &NewTask) -> (r: bool)
    ensures
        r == (new_task@.creator == "error"@),
{
    new_task.creator == "error".to_owned()
}

/// The fixed body of the rejected create's failure reply.
pub fn create_error_body() -> (r: &'static str)
    ensures
        r@ == "测试错误！！！！！"@,
{
    "测试错误！！！！！"
}

/// Lists every task for the task listing endpoint.
pub fn get_tasks(store: &Store) -> (r: Vec<Task>)
    ensures
        views_of(r@) == store@.rows,
{
    store.list_all()
}

/// The create endpoint's work after parsing: reject the test hook with
/// the store untouched; otherwise persist a `Pending` row under the next
/// id and hand back the materialized record together with the `Create`
/// event to send — after the write, so the dispatcher never sees an
/// unpersisted id.
pub fn create_task(store: &mut Store, new_task: NewTask, created_at: String) -> (r: Result<
    (Task, TaskEvent),
    (),
>)
    requires
        old(store).wf(),
        old(store)@.next_id < i64::MAX,
    ensures
        final(store).wf(),
        new_task@.creator == "error"@ ==> r is Err && final(store)@ == old(store)@,
        new_task@.creator != "error"@ ==> match r {
            Ok((t, ev)) => {
                &&& t@.id == old(store)@.next_id
                &&& t@.created_at == created_at@
                &&& t@.creator == new_task@.creator
                &&& t@.branch == new_task@.branch
                &&& t@.svn_merge_number == new_task@.svn_merge_number
                &&& t@.status == TaskStatus::Pending
                &&& final(store)@.rows == old(store)@.rows.push(t@)
                &&& final(store)@.logs == old(store)@.logs
                &&& final(store)@.next_id == old(store)@.next_id + 1
                &&& row_stored(final(store)@, t@)
                &&& ev@ == EventView::Create(t@)
            },
            Err(_) => false,
        },
{
    if create_rejected(&new_task) {
        return Err(());
    }
    let task = store.insert(new_task, created_at);
    let event = TaskEvent::Create(task.clone());
    proof {
        assert(store@.rows.last() == task@);
    }
    Ok((task, event))
}

/// The stop endpoint's work: record `Stopped` for the id — idempotently,
/// so an unknown id succeeds too — and hand back the `Stop` event to send.
pub fn stop_task(store: &mut Store, task_id: i64) -> (ev: TaskEvent)
    requires
        old(store).wf(),
    ensures
        final(store).wf(),
        final(store)@.rows == set_status_rows(old(store)@.rows, task_id as int,
            TaskStatus::Stopped),
        final(store)@.logs == old(store)@.logs,
        final(store)@.next_id == old(store)@.next_id,
        ev@ == EventView::Stop(task_id as int),
{
    store.set_status(task_id, TaskStatus::Stopped);
    TaskEvent::Stop(task_id)
}

/// The stop endpoint's reply: success is 200 with the fixed body; a
/// storage failure is 500 with this prefix (the shell appends the
/// backend's message).
pub fn stop_reply(ok: bool) -> (r: (u16, &'static str))
    ensures
        ok ==> r.0 == 200 && r.1@ == "Task stopped"@,
        !ok ==> r.0 == 500 && r.1@ == "Failed to stop task: "@,
{
    if ok {
        (200, "Task stopped")
    } else {
        (500, "Failed to stop task: ")
    }
}

/// The delete endpoint's work: remove the row and its logs — idempotently,
/// so an unknown id succeeds too — and hand back the `Delete` event to
/// send.
pub fn delete_task(store: &mut Store, task_id: i64) -> (ev: TaskEvent)
    requires
        old(store).wf(),
    ensures
        final(store).wf(),
        final(store)@.rows == remove_id(old(store)@.rows, task_id as int),
        final(store)@.next_id == old(store)@.next_id,
        !crate::rows::contains_id(final(store)@.rows, task_id as int),
        ev@ == EventView::Delete(task_id as int),
{
    store.delete(task_id);
    TaskEvent::Delete(task_id)
}

/// The delete endpoint's reply, as [`stop_reply`].
pub fn delete_reply(ok: bool) -> (r: (u16, &'static str))
    ensures
        ok ==> r.0 == 200 && r.1@ == "Task deleted"@,
        !ok ==> r.0 == 500 && r.1@ == "Failed to delete task: "@,
{
    if ok {
        (200, "Task deleted")
    } else {
        (500, "Failed to delete task: ")
    }
}

/// The log endpoint's work: the stored text, or the sentinel for a
/// missing id — always a 200.
pub fn get_logs(store: &Store, task_id: i64) -> (r: String)
    ensures
        r@ == match log_lookup(store@.logs, task_id as int) {
            Some(l) => l,
            None => no_log_text(),
        },
{
    store.get_log(task_id)
}

/// The sentinel body of a log read that found nothing.
pub fn no_log_found() -> (r: &'static str)
    ensures
        r@ == no_log_text(),
{
    "No log found"
}

/// The branch listing: a fixed placeholder until a version-control
/// integration exists.
pub fn get_branches() -> (r: Vec<String>)
    ensures
        r@.len() == 3,
        r@[0]@ == "main"@,
        r@[1]@ == "dev"@,
        r@[2]@ == "feature-xyz"@,
{
    let mut out: Vec<String> = Vec::new();
    out.push("main".to_owned());
    out.push("dev".to_owned());
    out.push("feature-xyz".to_owned());
    out
}

/// The commit listing for a branch: a fixed placeholder until a
/// version-control integration exists; the branch name is not yet
/// consulted.
pub fn get_commits(branch_name: &str) -> (r: Vec<String>)
    ensures
        r@.len() == 2,
        r@[0]@ == "commit1"@,
        r@[1]@ == "commit2"@,
{
    let _ = branch_name;
    let mut out: Vec<String> = Vec::new();
    out.push("commit1".to_owned());
    out.push("commit2".to_owned());
    out
}

/// The user record derived from a connection's peer address.
pub fn create_user_from_ip(ip: String) -> (u: User)
    ensures
        u@.username == "example_user"@,
        u@.computer_name == "example_computer"@,
        u@.ip == ip@,
{
    User { username: "example_user".to_owned(), computer_name: "example_computer".to_owned(), ip }
}

} // verus!
