//! The dispatching properties the library states, proved over the
//! spec-level transition functions of [`crate::tasks`].

use vstd::prelude::*;
use crate::rows::{contains_id, lemma_remove_id_facts, lemma_sorted_distinct};
use crate::store::{set_status_rows, StoreView};
use crate::task::{TaskStatus, TaskView};
use crate::tasks::{
    can_start, lemma_step_preserves_inv, row_stored, spec_apply, spec_finish, spec_run, spec_start, spec_step,
    sys_inv, valid_event, valid_trace, DispView, EventView,
};

verus! {

/// Consuming any valid event sequence preserves the system coupling. In
/// particular, since the coupling holds again after every prefix, the
/// in-memory queue never contains two entries with the same id, queued
/// tasks stay stored `Pending` rows, and the running task stays a stored
/// `Running` row.
pub proof fn lemma_run_preserves_inv(s: StoreView, d: DispView, events: Seq<EventView>)
    requires
        sys_inv(s, d),
        valid_trace(s, d, events),
    ensures
        sys_inv(spec_run(s, d, events).0, spec_run(s, d, events).1),
    decreases events.len(),
{
    if events.len() == 0 {
    } else {
        lemma_step_preserves_inv(s, d, events[0]);
        lemma_run_preserves_inv(
            spec_step(s, d, events[0]).0,
            spec_step(s, d, events[0]).1,
            events.drop_first(),
        );
    }
}

/// Events are consumed strictly in send order: an event sent after a
/// batch is handled exactly one step after that whole batch, leaving the
/// handling of the earlier events unchanged.
pub proof fn lemma_run_push(s: StoreView, d: DispView, events: Seq<EventView>, e: EventView)
    ensures
        spec_run(s, d, events.push(e)) == spec_step(
            spec_run(s, d, events).0,
            spec_run(s, d, events).1,
            e,
        ),
    decreases events.len(),
{
    if events.len() == 0 {
        assert(events.push(e).drop_first() =~= Seq::<EventView>::empty());
        assert(events.push(e)[0] == e);
        let n = spec_step(s, d, e);
        assert(spec_run(n.0, n.1, Seq::<EventView>::empty()) == n);
        assert(spec_run(s, d, events) == (s, d));
    } else {
        assert(events.push(e).drop_first() =~= events.drop_first().push(e));
        assert(events.push(e)[0] == events[0]);
        let n = spec_step(s, d, events[0]);
        lemma_run_push(n.0, n.1, events.drop_first(), e);
    }
}

/// After `Create(t)` is handled the queue contains `t` exactly once — at
/// the back, with no other entry carrying its id — and a subsequent
/// `Stop(t.id)` leaves the dispatcher with no reference to it at all.
pub proof fn lemma_create_then_stop(s: StoreView, d: DispView, t: TaskView)
    requires
        sys_inv(s, d),
        valid_event(s, d, EventView::Create(t)),
    ensures
        ({
            let d1 = spec_step(s, d, EventView::Create(t)).1;
            &&& d1.queue.len() == d.queue.len() + 1
            &&& d1.queue.last() == t
            &&& forall|j: int| 0 <= j < d1.queue.len() - 1 ==> #[trigger] d1.queue[j].id != t.id
        }),
        ({
            let s1 = spec_step(s, d, EventView::Create(t)).0;
            let d1 = spec_step(s, d, EventView::Create(t)).1;
            let d2 = spec_step(s1, d1, EventView::Stop(t.id)).1;
            !d2.contains_id(t.id)
        }),
{
    let s1 = spec_step(s, d, EventView::Create(t)).0;
    let d1 = spec_step(s, d, EventView::Create(t)).1;
    assert(d1.queue == d.queue.push(t));
    assert forall|j: int| 0 <= j < d1.queue.len() - 1 implies #[trigger] d1.queue[j].id
        != t.id by {
        assert(d1.queue[j] == d.queue[j]);
        assert(!contains_id(d.queue, t.id));
    }
    let d2 = spec_step(s1, d1, EventView::Stop(t.id)).1;
    lemma_remove_id_facts(d1.queue, t.id);
    match d2.running {
        Some(r) => {
            assert(d.running == Some(r));
            assert(r.id != t.id);
        },
        None => {},
    }
}

/// `Delete(id)` followed by `Stop(id)` leaves the store without a row for
/// `id` and the dispatcher without any reference to it: the stop's
/// idempotent status write touches nothing once the row is gone.
pub proof fn lemma_delete_then_stop(s: StoreView, d: DispView, id: int)
    requires
        sys_inv(s, d),
    ensures
        ({
            let s1 = spec_step(s, d, EventView::Delete(id)).0;
            let d1 = spec_step(s, d, EventView::Delete(id)).1;
            let s2 = spec_step(s1, d1, EventView::Stop(id)).0;
            let d2 = spec_step(s1, d1, EventView::Stop(id)).1;
            &&& !contains_id(s2.rows, id)
            &&& !d2.contains_id(id)
        }),
{
    let s1 = spec_step(s, d, EventView::Delete(id)).0;
    let d1 = spec_step(s, d, EventView::Delete(id)).1;
    let s2 = spec_step(s1, d1, EventView::Stop(id)).0;
    let d2 = spec_step(s1, d1, EventView::Stop(id)).1;
    lemma_remove_id_facts(s.rows, id);
    lemma_remove_id_facts(d.queue, id);
    lemma_remove_id_facts(d1.queue, id);
    assert(s2.rows == set_status_rows(s1.rows, id, TaskStatus::Stopped));
    assert forall|i: int| 0 <= i < s2.rows.len() implies #[trigger] s2.rows[i].id
        != id by {
        assert(s2.rows[i].id == s1.rows[i].id);
        assert(!contains_id(s1.rows, id));
    }
    match d2.running {
        Some(r) => {
            assert(d1.running == Some(r));
            assert(r.id != id);
        },
        None => {},
    }
}

/// Every status change an event writes to the store follows the status
/// machine, provided a stop does not target a row already `Completed`,
/// `Failed` or `Cancelled` (the stop endpoint is deliberately idempotent
/// and would overwrite those too). `Create` writes nothing; `Delete`
/// removes rows without changing any surviving status.
pub proof fn lemma_step_status_edges(s: StoreView, d: DispView, e: EventView)
    requires
        sys_inv(s, d),
        valid_event(s, d, e),
        e matches EventView::Stop(id) ==> forall|j: int|
            0 <= j < s.rows.len() && #[trigger] s.rows[j].id == id ==> (s.rows[j].status
                == TaskStatus::Pending || s.rows[j].status == TaskStatus::Running
                || s.rows[j].status == TaskStatus::Stopped),
    ensures
        e matches EventView::Create(t) ==> spec_step(s, d, e).0 == s,
        e matches EventView::Stop(id) ==> ({
            let s1 = spec_step(s, d, e).0;
            &&& s1.rows.len() == s.rows.len()
            &&& forall|j: int|
                0 <= j < s.rows.len() ==> #[trigger] s1.rows[j].id == s.rows[j].id && (
                s1.rows[j].status != s.rows[j].status ==> s.rows[j].status.spec_is_edge(
                    s1.rows[j].status,
                ))
        }),
        e matches EventView::Delete(id) ==> ({
            let s1 = spec_step(s, d, e).0;
            forall|k: int| 0 <= k < s1.rows.len() ==> s.rows.contains(#[trigger] s1.rows[k])
        }),
{
    match e {
        EventView::Create(_) => {
        },
        EventView::Stop(id) => {
            let s1 = spec_step(s, d, e).0;
            assert(s1.rows == set_status_rows(s.rows, id, TaskStatus::Stopped));
            assert forall|j: int|
                0 <= j < s.rows.len() implies #[trigger] s1.rows[j].id == s.rows[j].id && (
                s1.rows[j].status != s.rows[j].status ==> s.rows[j].status.spec_is_edge(
                    s1.rows[j].status,
                )) by {
                if s.rows[j].id == id {
                    assert(s1.rows[j].status == TaskStatus::Stopped);
                } else {
                    assert(s1.rows[j] == s.rows[j]);
                }
            }
        },
        EventView::Delete(id) => {
            lemma_remove_id_facts(s.rows, id);
        },
    }
}

/// Starting the queue head writes the one edge `Pending -> Running` for
/// exactly that task's row, and preserves the system coupling.
pub proof fn lemma_start_step(s: StoreView, d: DispView)
    requires
        sys_inv(s, d),
        can_start(d),
    ensures
        ({
            let d1 = spec_start(d).0;
            let s1 = spec_apply(s, spec_start(d).1);
            &&& sys_inv(s1, d1)
            &&& s1.rows.len() == s.rows.len()
            &&& forall|j: int|
                0 <= j < s.rows.len() ==> #[trigger] s1.rows[j].id == s.rows[j].id && (
                s1.rows[j].status != s.rows[j].status ==> s.rows[j].status == TaskStatus::Pending
                    && s1.rows[j].status == TaskStatus::Running && s.rows[j].id == d.queue[0].id)
        }),
{
    let t = d.queue[0];
    let d1 = spec_start(d).0;
    let s1 = spec_apply(s, spec_start(d).1);
    lemma_sorted_distinct(s.rows);
    assert(s1.rows == set_status_rows(s.rows, t.id, TaskStatus::Running));
    assert(row_stored(s, t));
    let j0 = choose|j: int| 0 <= j < s.rows.len() && s.rows[j] == t;
    assert forall|j: int|
        0 <= j < s.rows.len() implies #[trigger] s1.rows[j].id == s.rows[j].id && (
        s1.rows[j].status != s.rows[j].status ==> s.rows[j].status == TaskStatus::Pending
            && s1.rows[j].status == TaskStatus::Running && s.rows[j].id == t.id) by {
        if s.rows[j].id == t.id {
            assert(j == j0);
            assert(s.rows[j].status == TaskStatus::Pending);
        } else {
            assert(s1.rows[j] == s.rows[j]);
        }
    }
    assert(d1.queue =~= d.queue.drop_first());
    assert forall|a: int, b: int|
        0 <= a < b < d1.queue.len() implies d1.queue[a].id != d1.queue[b].id by {
        assert(d.queue[a + 1].id != d.queue[b + 1].id);
    }
    assert forall|k: int|
        0 <= k < d1.queue.len() implies d1.queue[k].status == TaskStatus::Pending
        && d1.queue[k].id != t.id && row_stored(s1, #[trigger] d1.queue[k]) by {
        assert(d1.queue[k] == d.queue[k + 1]);
        assert(d.queue[0].id != d.queue[k + 1].id);
        assert(row_stored(s, d.queue[k + 1]));
        let m = choose|m: int| 0 <= m < s.rows.len() && s.rows[m] == d.queue[k + 1];
        assert(s.rows[m].id != t.id);
        assert(s1.rows[m] == s.rows[m]);
    }
    assert(s1.rows[j0] == TaskView { status: TaskStatus::Running, ..t });
    assert(row_stored(s1, TaskView { status: TaskStatus::Running, ..t }));
    assert(d1.running == Some(TaskView { status: TaskStatus::Running, ..t }));
    assert forall|k: int| 0 <= k < d1.queue.len() implies #[trigger] d1.queue[k].id != t.id by {
        assert(d1.queue[k] == d.queue[k + 1]);
        assert(d.queue[0].id != d.queue[k + 1].id);
    }
    assert(!contains_id(d1.queue, t.id));
    assert forall|i: int, j: int|
        0 <= i < j < s1.rows.len() implies s1.rows[i].id < s1.rows[j].id by {
        assert(s.rows[i].id < s.rows[j].id);
    }
}

/// Ending the running task writes the one edge `Running -> Completed` (or
/// `Running -> Failed`) for exactly that task's row, and preserves the
/// system coupling.
pub proof fn lemma_finish_step(s: StoreView, d: DispView, success: bool)
    requires
        sys_inv(s, d),
        d.running is Some,
    ensures
        ({
            let d1 = spec_finish(d, success).0;
            let s1 = spec_apply(s, spec_finish(d, success).1);
            let outcome = if success {
                TaskStatus::Completed
            } else {
                TaskStatus::Failed
            };
            &&& sys_inv(s1, d1)
            &&& s1.rows.len() == s.rows.len()
            &&& forall|j: int|
                0 <= j < s.rows.len() ==> #[trigger] s1.rows[j].id == s.rows[j].id && (
                s1.rows[j].status != s.rows[j].status ==> s.rows[j].status == TaskStatus::Running
                    && s1.rows[j].status == outcome && s.rows[j].id == d.running->Some_0.id)
        }),
{
    let r = d.running->Some_0;
    let d1 = spec_finish(d, success).0;
    let s1 = spec_apply(s, spec_finish(d, success).1);
    let outcome = if success {
        TaskStatus::Completed
    } else {
        TaskStatus::Failed
    };
    lemma_sorted_distinct(s.rows);
    assert(s1.rows == set_status_rows(s.rows, r.id, outcome));
    assert(row_stored(s, r));
    let j0 = choose|j: int| 0 <= j < s.rows.len() && s.rows[j] == r;
    assert forall|j: int|
        0 <= j < s.rows.len() implies #[trigger] s1.rows[j].id == s.rows[j].id && (
        s1.rows[j].status != s.rows[j].status ==> s.rows[j].status == TaskStatus::Running
            && s1.rows[j].status == outcome && s.rows[j].id == r.id) by {
        if s.rows[j].id == r.id {
            assert(j == j0);
            assert(s.rows[j].status == TaskStatus::Running);
        } else {
            assert(s1.rows[j] == s.rows[j]);
        }
    }
    assert forall|k: int|
        0 <= k < d1.queue.len() implies row_stored(s1, #[trigger] d1.queue[k]) by {
        assert(row_stored(s, d.queue[k]));
        let m = choose|m: int| 0 <= m < s.rows.len() && s.rows[m] == d.queue[k];
        assert(!contains_id(d.queue, r.id));
        assert(d.queue[k].id != r.id);
        assert(s1.rows[m] == s.rows[m]);
    }
    assert forall|i: int, j: int|
        0 <= i < j < s1.rows.len() implies s1.rows[i].id < s1.rows[j].id by {
        assert(s.rows[i].id < s.rows[j].id);
    }
}

} // verus!
