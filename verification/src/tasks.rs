//! The task dispatcher: the long-lived actor that owns the runnable queue,
//! reconciles persisted rows on startup, consumes task events in send
//! order, and drives each task through the status machine.
//!
//! The dispatcher itself is pure state: every outside consequence of a
//! handled event is returned as an [`Effect`] for the caller to perform
//! (against [`Store`] here, against the real database in the service shell).

use std::collections::VecDeque;

use vstd::prelude::*;
use crate::rows::{
    contains_id, filter_seq, ids_distinct, lemma_filter_seq_sorted, lemma_remove_id_facts,
    remove_id, views_of,
};
use crate::store::{log_keep_ne, set_status_rows, Store, StoreView};
use crate::task::{Task, TaskStatus, TaskView};

verus! {

/// An event sent from an HTTP handler to the dispatcher.
pub enum TaskEvent {
    /// The task was persisted with status `Pending`; enqueue it.
    Create(Task),
    /// Stop the task with this id, wherever it is.
    Stop(i64),
    /// Remove the task with this id from the store and from memory.
    Delete(i64),
}

/// The mathematical value of a [`TaskEvent`].
pub ghost enum EventView {
    Create(TaskView),
    Stop(int),
    Delete(int),
}

impl View for TaskEvent {
    type V = EventView;

    open spec fn view(&self) -> EventView {
        match self {
            TaskEvent::Create(t) => EventView::Create(t@),
            TaskEvent::Stop(id) => EventView::Stop(*id as int),
            TaskEvent::Delete(id) => EventView::Delete(*id as int),
        }
    }
}

/// A store write the dispatcher asks for.
#[derive(Clone, Copy, PartialEq, Eq, Debug)]
pub enum StoreAction {
    /// Set the status of the row with this id (a no-op on an absent id).
    SetStatus(i64, TaskStatus),
    /// Remove the row with this id (a no-op on an absent id).
    Remove(i64),
}

/// The mathematical value of a [`StoreAction`].
pub ghost enum ActionView {
    SetStatus(int, TaskStatus),
    Remove(int),
}

impl View for StoreAction {
    type V = ActionView;

    open spec fn view(&self) -> ActionView {
        match self {
            StoreAction::SetStatus(id, st) => ActionView::SetStatus(*id as int, *st),
            StoreAction::Remove(id) => ActionView::Remove(*id as int),
        }
    }
}

/// What handling one event asks of the world outside the dispatcher's
/// memory: possibly cancelling the running task, and at most one store
/// write.
#[derive(Clone, Copy, PartialEq, Eq, Debug)]
pub struct Effect {
    pub cancel_running: bool,
    pub action: Option<StoreAction>,
}

/// The mathematical value of an [`Effect`].
pub ghost struct EffectView {
    pub cancel_running: bool,
    pub action: Option<ActionView>,
}

impl View for Effect {
    type V = EffectView;

    open spec fn view(&self) -> EffectView {
        EffectView {
            cancel_running: self.cancel_running,
            action: match self.action {
                Some(a) => Some(a@),
                None => None,
            },
        }
    }
}

/// The mathematical value of a [`TaskProcessor`]: the runnable queue in
/// FIFO order, and the task being driven, if any.
pub ghost struct DispView {
    pub queue: Seq<TaskView>,
    pub running: Option<TaskView>,
}

impl DispView {
    /// The dispatcher references `id`: it is queued or running.
    pub open spec fn contains_id(self, id: int) -> bool {
        contains_id(self.queue, id) || (match self.running {
            Some(r) => r.id == id,
            None => false,
        })
    }

    /// Well-formedness: queued tasks are pairwise distinct by id and all
    /// `Pending`; the running task, if any, is `Running` and not queued.
    pub open spec fn wf(self) -> bool {
        &&& ids_distinct(self.queue)
        &&& forall|i: int|
            0 <= i < self.queue.len() ==> #[trigger] self.queue[i].status == TaskStatus::Pending
        &&& match self.running {
            Some(r) => r.status == TaskStatus::Running && !contains_id(self.queue, r.id),
            None => true,
        }
    }

    /// The dispatcher before reconciliation: nothing queued, nothing running.
    pub open spec fn empty() -> DispView {
        DispView { queue: Seq::empty(), running: None }
    }
}

/// Reconciliation of one fetched row: a `Pending` row is queued; a
/// `Running` row is crash-orphaned work and is adopted by re-queuing it as
/// `Pending`; terminal rows are ignored.
pub open spec fn spec_reconcile_one(d: DispView, t: TaskView) -> DispView {
    if t.status == TaskStatus::Pending {
        DispView { queue: d.queue.push(t), ..d }
    } else if t.status == TaskStatus::Running {
        DispView { queue: d.queue.push(TaskView { status: TaskStatus::Pending, ..t }), ..d }
    } else {
        d
    }
}

/// Reconciliation of the fetched rows, in fetched (ascending `created_at`)
/// order.
pub open spec fn spec_reconcile(d: DispView, tasks: Seq<TaskView>) -> DispView
    decreases tasks.len(),
{
    if tasks.len() == 0 {
        d
    } else {
        spec_reconcile(spec_reconcile_one(d, tasks[0]), tasks.drop_first())
    }
}

/// Reconciliation processes rows front to back.
pub proof fn lemma_reconcile_push(d: DispView, tasks: Seq<TaskView>, t: TaskView)
    ensures
        spec_reconcile(d, tasks.push(t)) == spec_reconcile_one(spec_reconcile(d, tasks), t),
    decreases tasks.len(),
{
    if tasks.len() == 0 {
        assert(tasks.push(t).drop_first() =~= Seq::<TaskView>::empty());
        assert(tasks.push(t)[0] == t);
        assert(spec_reconcile(d, tasks.push(t)) == spec_reconcile(
            spec_reconcile_one(d, t),
            Seq::<TaskView>::empty(),
        ));
        assert(spec_reconcile(spec_reconcile_one(d, t), Seq::<TaskView>::empty())
            == spec_reconcile_one(d, t));
        assert(spec_reconcile(d, tasks) == d);
    } else {
        assert(tasks.push(t).drop_first() =~= tasks.drop_first().push(t));
        assert(tasks.push(t)[0] == tasks[0]);
        assert(spec_reconcile(d, tasks.push(t)) == spec_reconcile(
            spec_reconcile_one(d, tasks[0]),
            tasks.drop_first().push(t),
        ));
        lemma_reconcile_push(spec_reconcile_one(d, tasks[0]), tasks.drop_first(), t);
        assert(spec_reconcile(d, tasks) == spec_reconcile(
            spec_reconcile_one(d, tasks[0]),
            tasks.drop_first(),
        ));
    }
}

/// What handling one event does to the dispatcher's memory.
pub open spec fn spec_handle(d: DispView, e: EventView) -> DispView {
    match e {
        EventView::Create(t) => DispView { queue: d.queue.push(t), ..d },
        EventView::Stop(id) => DispView {
            queue: remove_id(d.queue, id),
            running: match d.running {
                Some(r) => if r.id == id {
                    None
                } else {
                    Some(r)
                },
                None => None,
            },
        },
        EventView::Delete(id) => DispView {
            queue: remove_id(d.queue, id),
            running: match d.running {
                Some(r) => if r.id == id {
                    None
                } else {
                    Some(r)
                },
                None => None,
            },
        },
    }
}

/// Whether the event's id matches the running task.
pub open spec fn hits_running(d: DispView, id: int) -> bool {
    match d.running {
        Some(r) => r.id == id,
        None => false,
    }
}

/// What handling one event asks of the outside: `Stop` always writes
/// `Stopped` (idempotently), `Delete` always removes the row
/// (idempotently), and either cancels the running task when it is the
/// target.
pub open spec fn spec_effect(d: DispView, e: EventView) -> EffectView {
    match e {
        EventView::Create(_) => EffectView { cancel_running: false, action: None },
        EventView::Stop(id) => EffectView {
            cancel_running: hits_running(d, id),
            action: Some(ActionView::SetStatus(id, TaskStatus::Stopped)),
        },
        EventView::Delete(id) => EffectView {
            cancel_running: hits_running(d, id),
            action: Some(ActionView::Remove(id)),
        },
    }
}

/// The dispatcher-local part of event validity: a `Create` carries a
/// freshly persisted `Pending` row whose id the dispatcher does not yet
/// reference.
pub open spec fn event_ok(d: DispView, e: EventView) -> bool {
    match e {
        EventView::Create(t) => t.status == TaskStatus::Pending && !d.contains_id(t.id),
        EventView::Stop(_) => true,
        EventView::Delete(_) => true,
    }
}

/// The dispatcher: owns the runnable queue and the running slot.
pub struct TaskProcessor {
    queue: VecDeque<Task>,
    running: Option<Task>,
}

impl View for TaskProcessor {
    type V = DispView;

    closed spec fn view(&self) -> DispView {
        DispView {
            queue: views_of(self.queue@),
            running: match self.running {
                Some(t) => Some(t@),
                None => None,
            },
        }
    }
}

impl TaskProcessor {
    pub open spec fn wf(&self) -> bool {
        self@.wf()
    }

    /// Builds the dispatcher and reconciles the given live rows (the
    /// store's live listing) into its queue.
    pub fn new(live_tasks: Vec<Task>) -> (p: TaskProcessor)
        requires
            ids_distinct(views_of(live_tasks@)),
        ensures
            p@ == spec_reconcile(DispView::empty(), views_of(live_tasks@)),
            p.wf(),
    {
        let mut p = TaskProcessor { queue: VecDeque::new(), running: None };
        proof {
            assert(p@.queue =~= Seq::<TaskView>::empty());
            assert(p@ == DispView::empty());
        }
        p.load_tasks(live_tasks);
        p
    }

    /// Startup reconciliation: walks the fetched rows in order, queueing
    /// `Pending` rows, adopting `Running` rows, ignoring terminal ones.
    pub fn load_tasks(&mut self, tasks: Vec<Task>)
        requires
            old(self)@ == DispView::empty(),
            ids_distinct(views_of(tasks@)),
        ensures
            final(self)@ == spec_reconcile(DispView::empty(), views_of(tasks@)),
            final(self).wf(),
    {
        let ghost all = views_of(tasks@);
        let mut i: usize = 0;
        while i < tasks.len()
            invariant
                i <= tasks.len(),
                all == views_of(tasks@),
                ids_distinct(all),
                self@ == spec_reconcile(DispView::empty(), all.subrange(0, i as int)),
                self.wf(),
                self@.running is None,
                forall|j: int| i <= j < all.len() ==> !self@.contains_id(#[trigger] all[j].id),
            decreases tasks.len() - i,
        {
            let ghost pre = self@;
            proof {
                assert(all.subrange(0, i + 1 as int) =~= all.subrange(0, i as int).push(
                    all[i as int],
                ));
                lemma_reconcile_push(DispView::empty(), all.subrange(0, i as int), all[i as int]);
            }
            let t = &tasks[i];
            match t.status {
                TaskStatus::Pending => {
                    self.queue.push_back(t.clone());
                    proof {
                        assert(self@.queue =~= pre.queue.push(t@));
                        assert(self@ == spec_reconcile_one(pre, all[i as int]));
                        let q = self@.queue;
                        assert forall|a: int, b: int|
                            0 <= a < b < q.len() implies q[a].id != q[b].id by {
                            if b == q.len() - 1 {
                                assert(!contains_id(pre.queue, t@.id));
                                assert(pre.queue[a].id != t@.id);
                            }
                        }
                    }
                },
                TaskStatus::Running => {
                    self.handle_running_task(t);
                    proof {
                        assert(self@ == spec_reconcile_one(pre, all[i as int]));
                    }
                },
                _ => {
                    proof {
                        assert(self@ == spec_reconcile_one(pre, all[i as int]));
                    }
                },
            }
            i = i + 1;
            proof {
                assert forall|j: int| i <= j < all.len() implies !self@.contains_id(
                    #[trigger] all[j].id,
                ) by {
                    assert(all[j].id != all[i - 1].id);
                }
            }
        }
        proof {
            assert(all.subrange(0, tasks@.len() as int) =~= all);
        }
    }

    /// Adopts a crash-orphaned `Running` row: the source leaves the orphan
    /// policy open, and the safest default is taken — the task re-enters
    /// the queue as `Pending` rather than being presumed still executing.
    /// The store row is left untouched; the task will be started again in
    /// its turn.
    pub fn handle_running_task(&mut self, task: &Task)
        requires
            old(self).wf(),
            task@.status == TaskStatus::Running,
            !old(self)@.contains_id(task@.id),
        ensures
            final(self)@.queue == old(self)@.queue.push(
                TaskView { status: TaskStatus::Pending, ..task@ },
            ),
            final(self)@.running == old(self)@.running,
            final(self).wf(),
    {
        let mut adopted = task.clone();
        adopted.status = TaskStatus::Pending;
        self.queue.push_back(adopted);
        proof {
            assert(self@.queue =~= old(self)@.queue.push(
                TaskView { status: TaskStatus::Pending, ..task@ },
            ));
            let q = self@.queue;
            assert forall|i: int, j: int| 0 <= i < j < q.len() implies q[i].id != q[j].id by {
                if j == q.len() - 1 {
                    assert(!contains_id(old(self)@.queue, task@.id));
                    assert(old(self)@.queue[i].id != task@.id);
                }
            }
        }
    }

    /// How many tasks wait in the queue.
    pub fn queue_len(&self) -> (n: usize)
        ensures
            n == self@.queue.len(),
    {
        self.queue.len()
    }

    /// The ids of the queued tasks, in queue order.
    pub fn queue_ids(&self) -> (r: Vec<i64>)
        ensures
            r@.len() == self@.queue.len(),
            forall|i: int| 0 <= i < r@.len() ==> #[trigger] r@[i] as int == self@.queue[i].id,
    {
        let mut out: Vec<i64> = Vec::new();
        let mut i: usize = 0;
        while i < self.queue.len()
            invariant
                i <= self.queue.len(),
                out@.len() == i,
                forall|j: int| 0 <= j < i ==> #[trigger] out@[j] as int == self@.queue[j].id,
            decreases self.queue.len() - i,
        {
            out.push(self.queue[i].id);
            i = i + 1;
        }
        out
    }

    /// The queued tasks, in queue order.
    pub fn queue_tasks(&self) -> (r: Vec<Task>)
        ensures
            views_of(r@) == self@.queue,
    {
        let mut out: Vec<Task> = Vec::new();
        let mut i: usize = 0;
        while i < self.queue.len()
            invariant
                i <= self.queue.len(),
                out@.len() == i,
                forall|j: int| 0 <= j < i ==> #[trigger] out@[j]@ == self@.queue[j],
            decreases self.queue.len() - i,
        {
            out.push(self.queue[i].clone());
            i = i + 1;
        }
        proof {
            assert(views_of(out@) =~= self@.queue);
        }
        out
    }

    /// The id of the running task, if one is being driven.
    pub fn running_id(&self) -> (r: Option<i64>)
        ensures
            match r {
                Some(id) => self@.running matches Some(t) && t.id == id as int,
                None => self@.running is None,
            },
    {
        match &self.running {
            Some(t) => Some(t.id),
            None => None,
        }
    }

    /// Whether the dispatcher references `id`, queued or running.
    pub fn contains_id(&self, id: i64) -> (r: bool)
        ensures
            r == self@.contains_id(id as int),
    {
        match self.running_id() {
            Some(rid) => if rid == id {
                return true;
            },
            None => {},
        }
        let mut i: usize = 0;
        while i < self.queue.len()
            invariant
                i <= self.queue.len(),
                forall|j: int| 0 <= j < i ==> #[trigger] self@.queue[j].id != id as int,
            decreases self.queue.len() - i,
        {
            if self.queue[i].id == id {
                proof {
                    assert(self@.queue[i as int].id == id as int);
                    assert(contains_id(self@.queue, id as int));
                }
                return true;
            }
            i = i + 1;
        }
        false
    }

    /// Steady-state dispatch of one received event to the matching
    /// handler; returns what the caller must perform outside.
    pub fn handle_event(&mut self, event: TaskEvent) -> (eff: Effect)
        requires
            old(self).wf(),
            event_ok(old(self)@, event@),
        ensures
            final(self)@ == spec_handle(old(self)@, event@),
            eff@ == spec_effect(old(self)@, event@),
            final(self).wf(),
    {
        match event {
            TaskEvent::Create(task) => {
                let ghost tv = task@;
                self.queue.push_back(task);
                proof {
                    assert(self@.queue =~= old(self)@.queue.push(tv));
                    let q = self@.queue;
                    assert forall|i: int, j: int|
                        0 <= i < j < q.len() implies q[i].id != q[j].id by {
                        if j == q.len() - 1 {
                            assert(!contains_id(old(self)@.queue, tv.id));
                            assert(old(self)@.queue[i].id != tv.id);
                        }
                    }
                }
                Effect { cancel_running: false, action: None }
            },
            TaskEvent::Stop(task_id) => self.stop_task(task_id),
            TaskEvent::Delete(task_id) => self.delete_task(task_id),
        }
    }

    /// Handles a stop event: the target leaves the queue or the running
    /// slot (cancelling it there), and the store is asked to record
    /// `Stopped` — also for unknown ids, idempotently.
    pub fn stop_task(&mut self, task_id: i64) -> (eff: Effect)
        requires
            old(self).wf(),
        ensures
            final(self)@ == spec_handle(old(self)@, EventView::Stop(task_id as int)),
            eff@ == spec_effect(old(self)@, EventView::Stop(task_id as int)),
            final(self).wf(),
    {
        let cancel = self.drop_id(task_id);
        Effect {
            cancel_running: cancel,
            action: Some(StoreAction::SetStatus(task_id, TaskStatus::Stopped)),
        }
    }

    /// Handles a delete event: the target leaves the queue or the running
    /// slot (cancelling it there), and the store is asked to remove the
    /// row — also for unknown ids, idempotently.
    pub fn delete_task(&mut self, task_id: i64) -> (eff: Effect)
        requires
            old(self).wf(),
        ensures
            final(self)@ == spec_handle(old(self)@, EventView::Delete(task_id as int)),
            eff@ == spec_effect(old(self)@, EventView::Delete(task_id as int)),
            final(self).wf(),
    {
        let cancel = self.drop_id(task_id);
        Effect { cancel_running: cancel, action: Some(StoreAction::Remove(task_id)) }
    }

    /// Removes `task_id` from the queue (order of the rest kept) and from
    /// the running slot; reports whether the running task was the target.
    fn drop_id(&mut self, task_id: i64) -> (cancel: bool)
        requires
            old(self).wf(),
        ensures
            final(self)@.queue == remove_id(old(self)@.queue, task_id as int),
            final(self)@.running == (match old(self)@.running {
                Some(r) => if r.id == task_id as int {
                    None
                } else {
                    Some(r)
                },
                None => None::<TaskView>,
            }),
            cancel == hits_running(old(self)@, task_id as int),
            final(self).wf(),
            !final(self)@.contains_id(task_id as int),
    {
        let ghost old_queue = self@.queue;
        let mut kept: VecDeque<Task> = VecDeque::new();
        let mut i: usize = 0;
        while i < self.queue.len()
            invariant
                i <= self.queue.len(),
                self@ == old(self)@,
                views_of(kept@) == remove_id(old_queue.subrange(0, i as int), task_id as int),
                old_queue == self@.queue,
            decreases self.queue.len() - i,
        {
            let t = &self.queue[i];
            proof {
                assert(old_queue.subrange(0, i + 1 as int) =~= old_queue.subrange(0, i as int).push(
                    old_queue[i as int],
                ));
                crate::rows::lemma_filter_seq_push(
                    old_queue.subrange(0, i as int),
                    crate::rows::keep_id_ne(task_id as int),
                    old_queue[i as int],
                );
            }
            if t.id != task_id {
                kept.push_back(t.clone());
                proof {
                    assert(views_of(kept@) =~= remove_id(
                        old_queue.subrange(0, i as int),
                        task_id as int,
                    ).push(old_queue[i as int]));
                }
            }
            i = i + 1;
        }
        proof {
            assert(old_queue.subrange(0, self.queue@.len() as int) =~= old_queue);
        }
        self.queue = kept;
        let cancel = match &self.running {
            Some(r) => r.id == task_id,
            None => false,
        };
        if cancel {
            self.running = None;
        }
        proof {
            lemma_remove_id_facts(old_queue, task_id as int);
            let newq = self@.queue;
            assert forall|k: int|
                0 <= k < newq.len() implies #[trigger] newq[k].status == TaskStatus::Pending by {
                assert(old_queue.contains(newq[k]));
                let j = choose|j: int| 0 <= j < old_queue.len() && old_queue[j] == newq[k];
                assert(old_queue[j].status == TaskStatus::Pending);
            }
            match self@.running {
                Some(r) => {
                    assert(!contains_id(old_queue, r.id));
                    assert forall|k: int| 0 <= k < newq.len() implies #[trigger] newq[k].id
                        != r.id by {
                        assert(old_queue.contains(newq[k]));
                        let j = choose|j: int| 0 <= j < old_queue.len() && old_queue[j] == newq[k];
                    }
                },
                None => {},
            }
        }
        cancel
    }

    /// Promotes the queue head to the running slot, in FIFO order: the
    /// task leaves the queue with status `Running` and the store is asked
    /// to record the start. Nothing happens while a task is already
    /// running or the queue is empty.
    pub fn start_next(&mut self) -> (r: Option<Effect>)
        requires
            old(self).wf(),
        ensures
            final(self)@ == spec_start(old(self)@).0,
            match r {
                Some(eff) => can_start(old(self)@) && eff@ == spec_start(old(self)@).1,
                None => !can_start(old(self)@),
            },
            final(self).wf(),
    {
        if self.running.is_some() || self.queue.len() == 0 {
            return None;
        }
        let mut t = self.queue.pop_front().unwrap();
        t.status = TaskStatus::Running;
        let id = t.id;
        self.running = Some(t);
        proof {
            let oldq = old(self)@.queue;
            assert(self@.queue =~= oldq.drop_first());
            assert forall|a: int, b: int|
                0 <= a < b < self@.queue.len() implies self@.queue[a].id != self@.queue[b].id by {
                assert(oldq[a + 1].id != oldq[b + 1].id);
            }
            assert forall|k: int| 0 <= k < self@.queue.len() implies #[trigger] self@.queue[k].id
                != oldq[0].id by {
                assert(oldq[0].id != oldq[k + 1].id);
            }
            assert forall|k: int|
                0 <= k < self@.queue.len() implies #[trigger] self@.queue[k].status
                == TaskStatus::Pending by {
                assert(oldq[k + 1].status == TaskStatus::Pending);
            }
        }
        Some(
            Effect {
                cancel_running: false,
                action: Some(StoreAction::SetStatus(id, TaskStatus::Running)),
            },
        )
    }

    /// Ends the running task, recording `Completed` on success and
    /// `Failed` otherwise; nothing happens when no task is running.
    pub fn finish_running(&mut self, success: bool) -> (r: Option<Effect>)
        requires
            old(self).wf(),
        ensures
            final(self)@ == spec_finish(old(self)@, success).0,
            match r {
                Some(eff) => old(self)@.running is Some && eff@ == spec_finish(
                    old(self)@,
                    success,
                ).1,
                None => old(self)@.running is None && final(self)@ == old(self)@,
            },
            final(self).wf(),
    {
        match self.running_id() {
            Some(id) => {
                self.running = None;
                let st = if success {
                    TaskStatus::Completed
                } else {
                    TaskStatus::Failed
                };
                Some(Effect { cancel_running: false, action: Some(StoreAction::SetStatus(id, st)) })
            },
            None => None,
        }
    }

    /// One full dispatch step against the verified store: handles the
    /// event, then performs the store write it asks for. Preserves the
    /// system coupling [`sys_inv`].
    pub fn step(&mut self, store: &mut Store, event: TaskEvent) -> (eff: Effect)
        requires
            sys_inv(old(store)@, old(self)@),
            valid_event(old(store)@, old(self)@, event@),
        ensures
            final(self)@ == spec_handle(old(self)@, event@),
            eff@ == spec_effect(old(self)@, event@),
            final(store)@ == spec_apply(old(store)@, eff@),
            (final(store)@, final(self)@) == spec_step(old(store)@, old(self)@, event@),
            sys_inv(final(store)@, final(self)@),
    {
        let ghost s0 = store@;
        let ghost d0 = self@;
        let ghost ev = event@;
        let eff = self.handle_event(event);
        apply_effect(store, &eff);
        proof {
            lemma_step_preserves_inv(s0, d0, ev);
        }
        eff
    }

    /// The deterministic dispatcher loop: consumes the pending events in
    /// send order, one step per event, and returns when none remain. The
    /// live service performs the same step for each event it receives
    /// from its channel.
    pub fn run(&mut self, store: &mut Store, events: VecDeque<TaskEvent>)
        requires
            sys_inv(old(store)@, old(self)@),
            valid_trace(old(store)@, old(self)@, events_view(events@)),
        ensures
            (final(store)@, final(self)@) == spec_run(
                old(store)@,
                old(self)@,
                events_view(events@),
            ),
            sys_inv(final(store)@, final(self)@),
    {
        let ghost goal = spec_run(old(store)@, old(self)@, events_view(events@));
        let mut events = events;
        while events.len() > 0
            invariant
                sys_inv(store@, self@),
                valid_trace(store@, self@, events_view(events@)),
                spec_run(store@, self@, events_view(events@)) == goal,
            decreases events@.len(),
        {
            let ghost es = events_view(events@);
            let e = events.pop_front().unwrap();
            proof {
                assert(es[0] == e@);
                assert(events_view(events@) =~= es.drop_first());
                assert(valid_event(store@, self@, e@));
            }
            let ghost s0 = store@;
            let ghost d0 = self@;
            self.step(store, e);
            proof {
                assert(spec_run(s0, d0, es) == spec_run(store@, self@, es.drop_first()));
            }
        }
        proof {
            assert(events_view(events@) =~= Seq::<EventView>::empty());
            assert(spec_run(store@, self@, events_view(events@)) == (store@, self@));
        }
    }
}

/// The queue head can be started: nothing is running and work waits.
pub open spec fn can_start(d: DispView) -> bool {
    d.running is None && d.queue.len() > 0
}

/// What starting the next task does: the queue head moves to the running
/// slot with status `Running`, and the store is asked to record the start.
pub open spec fn spec_start(d: DispView) -> (DispView, EffectView) {
    if can_start(d) {
        (
            DispView {
                queue: d.queue.drop_first(),
                running: Some(TaskView { status: TaskStatus::Running, ..d.queue[0] }),
            },
            EffectView {
                cancel_running: false,
                action: Some(ActionView::SetStatus(d.queue[0].id, TaskStatus::Running)),
            },
        )
    } else {
        (d, EffectView { cancel_running: false, action: None })
    }
}

/// What ending the running task does: the slot empties and the store is
/// asked to record the outcome.
pub open spec fn spec_finish(d: DispView, success: bool) -> (DispView, EffectView) {
    match d.running {
        Some(r) => (
            DispView { running: None, ..d },
            EffectView {
                cancel_running: false,
                action: Some(
                    ActionView::SetStatus(
                        r.id,
                        if success {
                            TaskStatus::Completed
                        } else {
                            TaskStatus::Failed
                        },
                    ),
                ),
            },
        ),
        None => (d, EffectView { cancel_running: false, action: None }),
    }
}

/// What performing a store action does to the store.
pub open spec fn spec_apply_action(s: StoreView, a: ActionView) -> StoreView {
    match a {
        ActionView::SetStatus(id, st) => StoreView { rows: set_status_rows(s.rows, id, st), ..s },
        ActionView::Remove(id) => StoreView {
            rows: remove_id(s.rows, id),
            logs: filter_seq(s.logs, log_keep_ne(id)),
            ..s
        },
    }
}

/// What performing an effect does to the store.
pub open spec fn spec_apply(s: StoreView, eff: EffectView) -> StoreView {
    match eff.action {
        Some(a) => spec_apply_action(s, a),
        None => s,
    }
}

/// One dispatcher step: the memory by [`spec_handle`], the store by the
/// effect of [`spec_effect`].
pub open spec fn spec_step(s: StoreView, d: DispView, e: EventView) -> (StoreView, DispView) {
    (spec_apply(s, spec_effect(d, e)), spec_handle(d, e))
}

/// The row `t` stands in the store.
pub open spec fn row_stored(s: StoreView, t: TaskView) -> bool {
    exists|j: int| 0 <= j < s.rows.len() && s.rows[j] == t
}

/// An event the HTTP surface can send in state `(s, d)`: handlers persist
/// before they send, so a `Create` carries a stored `Pending` row whose id
/// the dispatcher does not yet reference.
pub open spec fn valid_event(s: StoreView, d: DispView, e: EventView) -> bool {
    event_ok(d, e) && match e {
        EventView::Create(t) => row_stored(s, t),
        _ => true,
    }
}

/// The coupling of store and dispatcher that dispatching preserves: both
/// well-formed, every queued task is a stored `Pending` row, and the
/// running task is a stored `Running` row.
pub open spec fn sys_inv(s: StoreView, d: DispView) -> bool {
    &&& s.wf()
    &&& d.wf()
    &&& forall|i: int| 0 <= i < d.queue.len() ==> row_stored(s, #[trigger] d.queue[i])
    &&& match d.running {
        Some(r) => row_stored(s, r),
        None => true,
    }
}

/// The events are valid along the whole trace from `(s, d)`.
pub open spec fn valid_trace(s: StoreView, d: DispView, events: Seq<EventView>) -> bool
    decreases events.len(),
{
    events.len() == 0 || {
        &&& valid_event(s, d, events[0])
        &&& valid_trace(
            spec_step(s, d, events[0]).0,
            spec_step(s, d, events[0]).1,
            events.drop_first(),
        )
    }
}

/// The state after consuming `events` in order from `(s, d)`.
pub open spec fn spec_run(s: StoreView, d: DispView, events: Seq<EventView>) -> (StoreView, DispView)
    decreases events.len(),
{
    if events.len() == 0 {
        (s, d)
    } else {
        spec_run(spec_step(s, d, events[0]).0, spec_step(s, d, events[0]).1, events.drop_first())
    }
}

/// The mathematical values of a sequence of events, in order.
pub open spec fn events_view(events: Seq<TaskEvent>) -> Seq<EventView> {
    events.map_values(|e: TaskEvent| e@)
}

/// Performs the store write an effect asks for; cancellation has no store
/// meaning (the dispatcher has already emptied the running slot).
pub fn apply_effect(store: &mut Store, eff: &Effect)
    requires
        old(store).wf(),
    ensures
        final(store)@ == spec_apply(old(store)@, eff@),
        final(store).wf(),
{
    match &eff.action {
        Some(StoreAction::SetStatus(id, st)) => store.set_status(*id, *st),
        Some(StoreAction::Remove(id)) => store.delete(*id),
        None => {},
    }
}

/// Dispatching any valid event preserves the system coupling — in
/// particular the queue never gains a duplicate id, and every queued task
/// stays a stored `Pending` row.
pub proof fn lemma_step_preserves_inv(s: StoreView, d: DispView, e: EventView)
    requires
        sys_inv(s, d),
        valid_event(s, d, e),
    ensures
        sys_inv(spec_step(s, d, e).0, spec_step(s, d, e).1),
{
    let s1 = spec_step(s, d, e).0;
    let d1 = spec_step(s, d, e).1;
    match e {
        EventView::Create(t) => {
            assert(s1 == s);
            assert(d1.queue == d.queue.push(t));
            assert forall|a: int, b: int|
                0 <= a < b < d1.queue.len() implies d1.queue[a].id != d1.queue[b].id by {
                if b == d1.queue.len() - 1 {
                    assert(!contains_id(d.queue, t.id));
                    assert(d.queue[a].id != t.id);
                }
            }
        },
        EventView::Stop(id) => {
            lemma_remove_id_facts(d.queue, id);
            assert(s1.rows == set_status_rows(s.rows, id, TaskStatus::Stopped));
            lemma_set_status_ids(s.rows, id, TaskStatus::Stopped);
            assert forall|j: int|
                0 <= j < s.rows.len() && #[trigger] s.rows[j].id != id implies row_stored(
                s1,
                s.rows[j],
            ) by {
                assert(s1.rows[j] == s.rows[j]);
            }
            lemma_remove_keeps_inv(s, d, id, s1, d1);
        },
        EventView::Delete(id) => {
            lemma_remove_id_facts(d.queue, id);
            lemma_remove_id_facts(s.rows, id);
            lemma_filter_seq_sorted(s.rows, crate::rows::keep_id_ne(id));
            assert forall|i: int| 0 <= i < s1.rows.len() implies 1 <= #[trigger] s1.rows[i].id
                < s1.next_id by {
                assert(s.rows.contains(s1.rows[i]));
                let j = choose|j: int| 0 <= j < s.rows.len() && s.rows[j] == s1.rows[i];
            }
            lemma_remove_keeps_inv(s, d, id, s1, d1);
        },
    }
}

/// Setting a status changes no id and no row count.
proof fn lemma_set_status_ids(rows: Seq<TaskView>, id: int, st: TaskStatus)
    ensures
        set_status_rows(rows, id, st).len() == rows.len(),
        forall|i: int|
            0 <= i < rows.len() ==> #[trigger] set_status_rows(rows, id, st)[i].id == rows[i].id,
        forall|i: int|
            0 <= i < rows.len() && rows[i].id != id ==> #[trigger] set_status_rows(
                rows,
                id,
                st,
            )[i] == rows[i],
{
}

/// Common part of stop and delete: after the target id leaves the
/// dispatcher and the store write touches only that id, the coupling holds.
proof fn lemma_remove_keeps_inv(s: StoreView, d: DispView, id: int, s1: StoreView, d1: DispView)
    requires
        sys_inv(s, d),
        d1.queue == remove_id(d.queue, id),
        d1.running == (match d.running {
            Some(r) => if r.id == id {
                None
            } else {
                Some(r)
            },
            None => None::<TaskView>,
        }),
        s1.wf(),
        forall|j: int|
            0 <= j < s.rows.len() && #[trigger] s.rows[j].id != id ==> row_stored(s1, s.rows[j]),
    ensures
        sys_inv(s1, d1),
{
    lemma_remove_id_facts(d.queue, id);
    assert forall|k: int|
        0 <= k < d1.queue.len() implies #[trigger] d1.queue[k].status == TaskStatus::Pending
        && d1.queue[k].id != id && row_stored(s1, d1.queue[k]) by {
        assert(d.queue.contains(d1.queue[k]));
        let m = choose|m: int| 0 <= m < d.queue.len() && d.queue[m] == d1.queue[k];
        assert(row_stored(s, d.queue[m]));
        let j = choose|j: int| 0 <= j < s.rows.len() && s.rows[j] == d.queue[m];
        assert(!contains_id(d1.queue, id));
        assert(d1.queue[k].id != id);
        assert(s.rows[j].id != id);
    }
    match d1.running {
        Some(r) => {
            assert(d.running == Some(r));
            assert(r.id != id);
            let j = choose|j: int| 0 <= j < s.rows.len() && s.rows[j] == r;
            assert(s.rows[j].id != id);
            assert(row_stored(s1, r));
            assert forall|k: int| 0 <= k < d1.queue.len() implies #[trigger] d1.queue[k].id
                != r.id by {
                assert(d.queue.contains(d1.queue[k]));
                let m = choose|m: int| 0 <= m < d.queue.len() && d.queue[m] == d1.queue[k];
                assert(!contains_id(d.queue, r.id));
            }
        },
        None => {},
    }
}

} // verus!
