//! The store: durable, typed persistence of tasks, given here as verified
//! in-memory semantics. Rows keep insertion order; ids are assigned
//! monotonically from 1, so row order is also ascending `created_at` order
//! (`created_at` is set at insert time from the caller's clock).

use vstd::prelude::*;
use crate::task::{NewTask, Task, TaskStatus, TaskView};
use crate::rows::{
    contains_id, filter_seq, ids_distinct, ids_sorted, keep_id_ne, lemma_filter_seq_push,
    lemma_filter_seq_sorted, lemma_sorted_distinct, remove_id, views_of,
};

verus! {

/// A row is fetched by the live listing unless its status is `Stopped` or
/// `Cancelled` (so `Completed` and `Failed` rows are fetched too; the
/// dispatcher ignores them on reload).
pub open spec fn is_live(t: TaskView) -> bool {
    t.status != TaskStatus::Stopped && t.status != TaskStatus::Cancelled
}

/// The live-row predicate as a single function value, so that every use
/// names the same predicate.
pub open spec fn live_pred() -> spec_fn(TaskView) -> bool {
    |t: TaskView| is_live(t)
}

/// The rows the live listing returns, in store order.
pub open spec fn live_rows(rows: Seq<TaskView>) -> Seq<TaskView> {
    filter_seq(rows, live_pred())
}

/// The predicate that keeps every log entry but those of `id`.
pub open spec fn log_keep_ne(id: int) -> spec_fn((int, Seq<char>)) -> bool {
    |p: (int, Seq<char>)| p.0 != id
}

/// `rows` with the status of the row carrying `id` replaced by `st`;
/// the identity when no row carries `id`.
pub open spec fn set_status_rows(rows: Seq<TaskView>, id: int, st: TaskStatus) -> Seq<TaskView> {
    rows.map_values(
        |t: TaskView|
            if t.id == id {
                TaskView { status: st, ..t }
            } else {
                t
            },
    )
}

/// The log text recorded for `id`, latest entry first; `None` when none is.
pub open spec fn log_lookup(logs: Seq<(int, Seq<char>)>, id: int) -> Option<Seq<char>>
    decreases logs.len(),
{
    if logs.len() == 0 {
        None
    } else if logs.last().0 == id {
        Some(logs.last().1)
    } else {
        log_lookup(logs.drop_last(), id)
    }
}

/// The sentinel the log read returns when no log is recorded.
pub open spec fn no_log_text() -> Seq<char> {
    "No log found"@
}

/// The mathematical value of a [`Store`]: its rows, its log entries, and
/// the id the next insert will assign.
pub ghost struct StoreView {
    pub rows: Seq<TaskView>,
    pub logs: Seq<(int, Seq<char>)>,
    pub next_id: int,
}

impl StoreView {
    /// Well-formedness: ids start at 1, strictly increase in row order, and
    /// stay below the next id to assign.
    pub open spec fn wf(self) -> bool {
        &&& 1 <= self.next_id
        &&& ids_sorted(self.rows)
        &&& forall|i: int| 0 <= i < self.rows.len() ==> #[trigger] self.rows[i].id < self.next_id
        &&& forall|i: int| 0 <= i < self.rows.len() ==> 1 <= #[trigger] self.rows[i].id
    }
}

/// Typed persistence of tasks: the single `tasks` table plus its optional
/// log texts, with the operations the service relies on.
pub struct Store {
    rows: Vec<Task>,
    logs: Vec<(i64, String)>,
    next_id: i64,
}

impl View for Store {
    type V = StoreView;

    closed spec fn view(&self) -> StoreView {
        StoreView {
            rows: views_of(self.rows@),
            logs: self.logs@.map_values(|p: (i64, String)| (p.0 as int, p.1@)),
            next_id: self.next_id as int,
        }
    }
}

impl Store {
    pub open spec fn wf(&self) -> bool {
        self@.wf()
    }

    /// An empty store; the first insert will assign id 1.
    pub fn new() -> (s: Store)
        ensures
            s.wf(),
            s@.rows == Seq::<TaskView>::empty(),
            s@.logs == Seq::<(int, Seq<char>)>::empty(),
            s@.next_id == 1,
    {
        let s = Store { rows: Vec::new(), logs: Vec::new(), next_id: 1 };
        proof {
            assert(s@.rows =~= Seq::<TaskView>::empty());
            assert(s@.logs =~= Seq::<(int, Seq<char>)>::empty());
        }
        s
    }

    /// Returns every task, in store order.
    pub fn list_all(&self) -> (r: Vec<Task>)
        ensures
            views_of(r@) == self@.rows,
    {
        let mut out: Vec<Task> = Vec::new();
        let mut i: usize = 0;
        while i < self.rows.len()
            invariant
                i <= self.rows.len(),
                out@.len() == i,
                forall|j: int| 0 <= j < i ==> #[trigger] out@[j]@ == self@.rows[j],
            decreases self.rows.len() - i,
        {
            out.push(self.rows[i].clone());
            i = i + 1;
        }
        proof {
            assert(views_of(out@) =~= self@.rows);
        }
        out
    }

    /// Returns the tasks whose status is not `Stopped` or `Cancelled`, in
    /// store order — ascending `created_at` order, since `created_at` is
    /// set at insert time.
    pub fn list_live(&self) -> (r: Vec<Task>)
        ensures
            views_of(r@) == live_rows(self@.rows),
            self.wf() ==> ids_sorted(views_of(r@)) && ids_distinct(views_of(r@)),
    {
        let mut out: Vec<Task> = Vec::new();
        let mut i: usize = 0;
        while i < self.rows.len()
            invariant
                i <= self.rows.len(),
                views_of(out@) == live_rows(self@.rows.subrange(0, i as int)),
            decreases self.rows.len() - i,
        {
            let t = &self.rows[i];
            proof {
                assert(self@.rows.subrange(0, i + 1 as int) =~= self@.rows.subrange(
                    0,
                    i as int,
                ).push(self@.rows[i as int]));
                lemma_filter_seq_push(self@.rows.subrange(0, i as int), live_pred(), t@);
            }
            let live = match t.status {
                TaskStatus::Stopped => false,
                TaskStatus::Cancelled => false,
                _ => true,
            };
            if live {
                out.push(t.clone());
                proof {
                    assert(views_of(out@) =~= live_rows(self@.rows.subrange(0, i as int)).push(
                        t@,
                    ));
                }
            }
            i = i + 1;
        }
        proof {
            assert(self@.rows.subrange(0, self.rows@.len() as int) =~= self@.rows);
            if self.wf() {
                lemma_filter_seq_sorted(self@.rows, live_pred());
                lemma_sorted_distinct(views_of(out@));
            }
        }
        out
    }

    /// Inserts a new task with the supplied creation time: the row gets the
    /// next id, status `Pending`, and the returned record is exactly the
    /// stored one.
    pub fn insert(&mut self, new_task: NewTask, created_at: String) -> (t: Task)
        requires
            old(self).wf(),
            old(self)@.next_id < i64::MAX,
        ensures
            final(self).wf(),
            t@.id == old(self)@.next_id,
            t@.created_at == created_at@,
            t@.creator == new_task@.creator,
            t@.branch == new_task@.branch,
            t@.svn_merge_number == new_task@.svn_merge_number,
            t@.status == TaskStatus::Pending,
            final(self)@.rows == old(self)@.rows.push(t@),
            final(self)@.logs == old(self)@.logs,
            final(self)@.next_id == old(self)@.next_id + 1,
    {
        let t = Task {
            id: self.next_id,
            created_at,
            creator: new_task.creator,
            branch: new_task.branch,
            svn_merge_number: new_task.svn_merge_number,
            status: TaskStatus::Pending,
        };
        let stored = t.clone();
        self.rows.push(stored);
        self.next_id = self.next_id + 1;
        proof {
            assert(self@.rows =~= old(self)@.rows.push(t@));
            assert forall|i: int, j: int|
                0 <= i < j < self@.rows.len() implies self@.rows[i].id < self@.rows[j].id by {
                if j < self@.rows.len() - 1 {
                    assert(old(self)@.rows[i].id < old(self)@.rows[j].id);
                }
            }
        }
        t
    }

    /// Sets the status of the row carrying `id`; a no-op when the id is
    /// absent (idempotent).
    pub fn set_status(&mut self, id: i64, status: TaskStatus)
        requires
            old(self).wf(),
        ensures
            final(self).wf(),
            final(self)@.rows == set_status_rows(old(self)@.rows, id as int, status),
            final(self)@.logs == old(self)@.logs,
            final(self)@.next_id == old(self)@.next_id,
    {
        let mut updated: Vec<Task> = Vec::new();
        let mut i: usize = 0;
        while i < self.rows.len()
            invariant
                i <= self.rows.len(),
                self@ == old(self)@,
                updated@.len() == i,
                forall|j: int|
                    0 <= j < i ==> #[trigger] updated@[j]@ == set_status_rows(
                        old(self)@.rows,
                        id as int,
                        status,
                    )[j],
            decreases self.rows.len() - i,
        {
            let mut t = self.rows[i].clone();
            if t.id == id {
                t.status = status;
            }
            updated.push(t);
            i = i + 1;
        }
        self.rows = updated;
        proof {
            assert(self@.rows =~= set_status_rows(old(self)@.rows, id as int, status));
            assert forall|i: int, j: int|
                0 <= i < j < self@.rows.len() implies self@.rows[i].id < self@.rows[j].id by {
                assert(old(self)@.rows[i].id < old(self)@.rows[j].id);
            }
        }
    }

    /// Removes the row carrying `id` and its log entries; a no-op when the
    /// id is absent (idempotent).
    pub fn delete(&mut self, id: i64)
        requires
            old(self).wf(),
        ensures
            final(self).wf(),
            final(self)@.rows == remove_id(old(self)@.rows, id as int),
            final(self)@.logs == filter_seq(old(self)@.logs, log_keep_ne(id as int)),
            final(self)@.next_id == old(self)@.next_id,
            !contains_id(final(self)@.rows, id as int),
    {
        let mut kept: Vec<Task> = Vec::new();
        let mut i: usize = 0;
        while i < self.rows.len()
            invariant
                i <= self.rows.len(),
                self@ == old(self)@,
                views_of(kept@) == remove_id(self@.rows.subrange(0, i as int), id as int),
            decreases self.rows.len() - i,
        {
            let t = &self.rows[i];
            proof {
                assert(self@.rows.subrange(0, i + 1 as int) =~= self@.rows.subrange(
                    0,
                    i as int,
                ).push(self@.rows[i as int]));
                lemma_filter_seq_push(
                    self@.rows.subrange(0, i as int),
                    keep_id_ne(id as int),
                    t@,
                );
            }
            if t.id != id {
                kept.push(t.clone());
                proof {
                    assert(views_of(kept@) =~= remove_id(
                        self@.rows.subrange(0, i as int),
                        id as int,
                    ).push(t@));
                }
            }
            i = i + 1;
        }
        let mut kept_logs: Vec<(i64, String)> = Vec::new();
        let mut k: usize = 0;
        while k < self.logs.len()
            invariant
                k <= self.logs.len(),
                self@ == old(self)@,
                kept_logs@.map_values(|p: (i64, String)| (p.0 as int, p.1@)) == filter_seq(
                    self@.logs.subrange(0, k as int),
                    log_keep_ne(id as int),
                ),
            decreases self.logs.len() - k,
        {
            let entry_id = self.logs[k].0;
            proof {
                assert(self@.logs.subrange(0, k + 1 as int) =~= self@.logs.subrange(
                    0,
                    k as int,
                ).push(self@.logs[k as int]));
                lemma_filter_seq_push(
                    self@.logs.subrange(0, k as int),
                    log_keep_ne(id as int),
                    self@.logs[k as int],
                );
            }
            if entry_id != id {
                let text = self.logs[k].1.clone();
                kept_logs.push((entry_id, text));
                proof {
                    assert(kept_logs@.map_values(|p: (i64, String)| (p.0 as int, p.1@))
                        =~= filter_seq(
                        self@.logs.subrange(0, k as int),
                        log_keep_ne(id as int),
                    ).push(self@.logs[k as int]));
                }
            }
            k = k + 1;
        }
        proof {
            assert(self@.rows.subrange(0, self.rows@.len() as int) =~= self@.rows);
            assert(self@.logs.subrange(0, self.logs@.len() as int) =~= self@.logs);
        }
        self.rows = kept;
        self.logs = kept_logs;
        proof {
            crate::rows::lemma_remove_id_facts(old(self)@.rows, id as int);
            lemma_filter_seq_sorted(old(self)@.rows, keep_id_ne(id as int));
        }
    }

    /// Returns the latest log text recorded for `id`, or the sentinel
    /// `"No log found"` when the id has none (absent ids and masked read
    /// failures look alike, preserving the service's contract).
    pub fn get_log(&self, id: i64) -> (r: String)
        ensures
            r@ == match log_lookup(self@.logs, id as int) {
                Some(l) => l,
                None => no_log_text(),
            },
    {
        let mut k: usize = self.logs.len();
        proof {
            assert(self@.logs.subrange(0, self.logs@.len() as int) =~= self@.logs);
        }
        while k > 0
            invariant
                k <= self.logs.len(),
                log_lookup(self@.logs, id as int) == log_lookup(
                    self@.logs.subrange(0, k as int),
                    id as int,
                ),
            decreases k,
        {
            k = k - 1;
            let entry_id = self.logs[k].0;
            proof {
                let prefix = self@.logs.subrange(0, k + 1 as int);
                assert(prefix.last() == self@.logs[k as int]);
                assert(prefix.drop_last() =~= self@.logs.subrange(0, k as int));
            }
            if entry_id == id {
                return self.logs[k].1.clone();
            }
        }
        proof {
            assert(self@.logs.subrange(0, 0) =~= Seq::<(int, Seq<char>)>::empty());
        }
        "No log found".to_owned()
    }

    /// Records a log text for `id`; later entries shadow earlier ones.
    /// The service itself never writes logs — this stands for whatever
    /// fills the log column from outside.
    pub fn set_log(&mut self, id: i64, text: String)
        ensures
            final(self)@.rows == old(self)@.rows,
            final(self)@.logs == old(self)@.logs.push((id as int, text@)),
            final(self)@.next_id == old(self)@.next_id,
            old(self).wf() ==> final(self).wf(),
    {
        self.logs.push((id, text));
        proof {
            assert(self@.logs =~= old(self)@.logs.push((id as int, text@)));
        }
    }
}

} // verus!
