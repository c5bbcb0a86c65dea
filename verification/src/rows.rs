//! Spec-level helpers over sequences of task rows: id uniqueness, insertion
//! order, and order-preserving removal, shared by the store and the
//! dispatcher queue.

use vstd::prelude::*;
use crate::task::{Task, TaskView};

verus! {

/// The views of the tasks in `s`, in order.
pub open spec fn views_of(s: Seq<Task>) -> Seq<TaskView> {
    s.map_values(|t: Task| t@)
}

/// No two rows share an id.
pub open spec fn ids_distinct(rows: Seq<TaskView>) -> bool {
    forall|i: int, j: int| 0 <= i < j < rows.len() ==> rows[i].id != rows[j].id
}

/// Row ids strictly increase left to right (insertion order).
pub open spec fn ids_sorted(rows: Seq<TaskView>) -> bool {
    forall|i: int, j: int| 0 <= i < j < rows.len() ==> rows[i].id < rows[j].id
}

/// Some row carries `id`.
pub open spec fn contains_id(rows: Seq<TaskView>, id: int) -> bool {
    exists|i: int| 0 <= i < rows.len() && rows[i].id == id
}

/// The subsequence of elements satisfying `pred`, order kept.
pub open spec fn filter_seq<A>(s: Seq<A>, pred: spec_fn(A) -> bool) -> Seq<A>
    decreases s.len(),
{
    if s.len() == 0 {
        Seq::empty()
    } else if pred(s[0]) {
        seq![s[0]] + filter_seq(s.drop_first(), pred)
    } else {
        filter_seq(s.drop_first(), pred)
    }
}

/// Filtering a sequence extended by one element filters the extension.
pub proof fn lemma_filter_seq_push<A>(s: Seq<A>, pred: spec_fn(A) -> bool, x: A)
    ensures
        filter_seq(s.push(x), pred) == if pred(x) {
            filter_seq(s, pred).push(x)
        } else {
            filter_seq(s, pred)
        },
    decreases s.len(),
{
    if s.len() == 0 {
        assert(s.push(x).drop_first() =~= Seq::<A>::empty());
        if pred(x) {
            assert(seq![x] + filter_seq(Seq::<A>::empty(), pred) =~= filter_seq(
                Seq::<A>::empty(),
                pred,
            ).push(x));
        }
    } else {
        assert(s.push(x).drop_first() =~= s.drop_first().push(x));
        lemma_filter_seq_push(s.drop_first(), pred, x);
        if pred(s[0]) {
            if pred(x) {
                assert(seq![s[0]] + filter_seq(s.drop_first(), pred).push(x) =~= (seq![s[0]]
                    + filter_seq(s.drop_first(), pred)).push(x));
            }
        }
    }
}

/// Every element of the filtered sequence satisfies `pred` and comes from `s`.
pub proof fn lemma_filter_seq_members<A>(s: Seq<A>, pred: spec_fn(A) -> bool)
    ensures
        filter_seq(s, pred).len() <= s.len(),
        forall|k: int|
            0 <= k < filter_seq(s, pred).len() ==> pred(#[trigger] filter_seq(s, pred)[k])
                && s.contains(filter_seq(s, pred)[k]),
    decreases s.len(),
{
    if s.len() == 0 {
    } else {
        let tail = s.drop_first();
        lemma_filter_seq_members(tail, pred);
        assert forall|k: int|
            0 <= k < filter_seq(s, pred).len() implies pred(#[trigger] filter_seq(s, pred)[k])
            && s.contains(filter_seq(s, pred)[k]) by {
            if pred(s[0]) {
                if k == 0 {
                    assert(filter_seq(s, pred)[0] == s[0]);
                    assert(s.contains(s[0]));
                } else {
                    assert(filter_seq(s, pred)[k] == filter_seq(tail, pred)[k - 1]);
                    let j = choose|j: int| 0 <= j < tail.len() && tail[j] == filter_seq(
                        tail,
                        pred,
                    )[k - 1];
                    assert(s[j + 1] == tail[j]);
                }
            } else {
                let j = choose|j: int| 0 <= j < tail.len() && tail[j] == filter_seq(tail, pred)[k];
                assert(s[j + 1] == tail[j]);
            }
        }
    }
}

/// An element of `s` satisfying `pred` survives the filter.
pub proof fn lemma_filter_seq_complete<A>(s: Seq<A>, pred: spec_fn(A) -> bool)
    ensures
        forall|j: int|
            0 <= j < s.len() && pred(#[trigger] s[j]) ==> filter_seq(s, pred).contains(s[j]),
    decreases s.len(),
{
    if s.len() == 0 {
    } else {
        let tail = s.drop_first();
        lemma_filter_seq_complete(tail, pred);
        assert forall|j: int|
            0 <= j < s.len() && pred(#[trigger] s[j]) implies filter_seq(s, pred).contains(
            s[j],
        ) by {
            if j == 0 {
                assert(filter_seq(s, pred)[0] == s[0]);
            } else {
                assert(tail[j - 1] == s[j]);
                assert(filter_seq(tail, pred).contains(tail[j - 1]));
                let k = choose|k: int|
                    0 <= k < filter_seq(tail, pred).len() && filter_seq(tail, pred)[k] == tail[j
                        - 1];
                if pred(s[0]) {
                    assert(filter_seq(s, pred)[k + 1] == filter_seq(tail, pred)[k]);
                } else {
                    assert(filter_seq(s, pred)[k] == filter_seq(tail, pred)[k]);
                }
            }
        }
    }
}

/// If every element satisfies `pred`, the filter is the identity.
pub proof fn lemma_filter_seq_all<A>(s: Seq<A>, pred: spec_fn(A) -> bool)
    requires
        forall|k: int| 0 <= k < s.len() ==> pred(#[trigger] s[k]),
    ensures
        filter_seq(s, pred) == s,
    decreases s.len(),
{
    if s.len() == 0 {
        assert(filter_seq(s, pred) =~= s);
    } else {
        let tail = s.drop_first();
        assert forall|k: int| 0 <= k < tail.len() implies pred(#[trigger] tail[k]) by {
            assert(tail[k] == s[k + 1]);
        }
        lemma_filter_seq_all(tail, pred);
        assert(filter_seq(s, pred) =~= s);
    }
}

/// Order-preserving removal keeps ids strictly increasing.
pub proof fn lemma_filter_seq_sorted(rows: Seq<TaskView>, pred: spec_fn(TaskView) -> bool)
    requires
        ids_sorted(rows),
    ensures
        ids_sorted(filter_seq(rows, pred)),
    decreases rows.len(),
{
    if rows.len() == 0 {
    } else {
        let tail = rows.drop_first();
        assert forall|i: int, j: int| 0 <= i < j < tail.len() implies tail[i].id < tail[j].id by {
            assert(tail[i] == rows[i + 1] && tail[j] == rows[j + 1]);
        }
        lemma_filter_seq_sorted(tail, pred);
        lemma_filter_seq_members(tail, pred);
        let f = filter_seq(rows, pred);
        assert forall|i: int, j: int| 0 <= i < j < f.len() implies f[i].id < f[j].id by {
            if pred(rows[0]) {
                if i == 0 {
                    assert(f[j] == filter_seq(tail, pred)[j - 1]);
                    let k = choose|k: int| 0 <= k < tail.len() && tail[k] == filter_seq(
                        tail,
                        pred,
                    )[j - 1];
                    assert(tail[k] == rows[k + 1]);
                    assert(rows[0].id < rows[k + 1].id);
                } else {
                    assert(f[i] == filter_seq(tail, pred)[i - 1]);
                    assert(f[j] == filter_seq(tail, pred)[j - 1]);
                }
            } else {
                assert(f[i] == filter_seq(tail, pred)[i]);
                assert(f[j] == filter_seq(tail, pred)[j]);
            }
        }
    }
}

/// The predicate that keeps every row but the one carrying `id`.
pub open spec fn keep_id_ne(id: int) -> spec_fn(TaskView) -> bool {
    |t: TaskView| t.id != id
}

/// `rows` with the row carrying `id` removed, order kept.
pub open spec fn remove_id(rows: Seq<TaskView>, id: int) -> Seq<TaskView> {
    filter_seq(rows, keep_id_ne(id))
}

/// Order-preserving removal keeps ids pairwise distinct.
pub proof fn lemma_filter_seq_distinct(rows: Seq<TaskView>, pred: spec_fn(TaskView) -> bool)
    requires
        ids_distinct(rows),
    ensures
        ids_distinct(filter_seq(rows, pred)),
    decreases rows.len(),
{
    if rows.len() == 0 {
    } else {
        let tail = rows.drop_first();
        assert forall|i: int, j: int| 0 <= i < j < tail.len() implies tail[i].id != tail[j].id by {
            assert(tail[i] == rows[i + 1] && tail[j] == rows[j + 1]);
        }
        lemma_filter_seq_distinct(tail, pred);
        lemma_filter_seq_members(tail, pred);
        let f = filter_seq(rows, pred);
        assert forall|i: int, j: int| 0 <= i < j < f.len() implies f[i].id != f[j].id by {
            if pred(rows[0]) {
                if i == 0 {
                    assert(f[j] == filter_seq(tail, pred)[j - 1]);
                    let k = choose|k: int| 0 <= k < tail.len() && tail[k] == filter_seq(
                        tail,
                        pred,
                    )[j - 1];
                    assert(tail[k] == rows[k + 1]);
                    assert(rows[0].id != rows[k + 1].id);
                } else {
                    assert(f[i] == filter_seq(tail, pred)[i - 1]);
                    assert(f[j] == filter_seq(tail, pred)[j - 1]);
                }
            } else {
                assert(f[i] == filter_seq(tail, pred)[i]);
                assert(f[j] == filter_seq(tail, pred)[j]);
            }
        }
    }
}

/// What removal by id does: the removed id is gone, everything else stays.
pub proof fn lemma_remove_id_facts(rows: Seq<TaskView>, id: int)
    ensures
        remove_id(rows, id).len() <= rows.len(),
        !contains_id(remove_id(rows, id), id),
        forall|k: int|
            0 <= k < remove_id(rows, id).len() ==> rows.contains(
                #[trigger] remove_id(rows, id)[k],
            ),
        forall|j: int|
            0 <= j < rows.len() && #[trigger] rows[j].id != id ==> remove_id(rows, id).contains(
                rows[j],
            ),
        !contains_id(rows, id) ==> remove_id(rows, id) == rows,
        ids_distinct(rows) ==> ids_distinct(remove_id(rows, id)),
{
    lemma_filter_seq_members(rows, keep_id_ne(id));
    lemma_filter_seq_complete(rows, keep_id_ne(id));
    if !contains_id(rows, id) {
        assert forall|k: int| 0 <= k < rows.len() implies keep_id_ne(id)(#[trigger] rows[k]) by {
            assert(!(exists|i: int| 0 <= i < rows.len() && rows[i].id == id));
        }
        lemma_filter_seq_all(rows, keep_id_ne(id));
    }
    if ids_distinct(rows) {
        lemma_filter_seq_distinct(rows, keep_id_ne(id));
    }
}

/// Sorted ids are distinct ids.
pub proof fn lemma_sorted_distinct(rows: Seq<TaskView>)
    requires
        ids_sorted(rows),
    ensures
        ids_distinct(rows),
{
    assert forall|i: int, j: int| 0 <= i < j < rows.len() implies rows[i].id != rows[j].id by {
        assert(rows[i].id < rows[j].id);
    }
}

} // verus!
