//! What the queue operations do to the order of the queue: the positions
//! stay `1..=K`, the moved job lands where it was sent, and the other jobs
//! keep their order.

use vstd::prelude::*;
use vstd::set_lib::{lemma_int_range, lemma_subset_equality, set_int_range};
use crate::queue_laws::{
    lemma_leave_keeps_wf, lemma_max_le_len, lemma_move_to_end_keeps_wf, lemma_move_to_front_keeps_wf,
    lemma_push_keeps_wf, lemma_remove_keeps_wf, lemma_reorder_keeps_wf,
};
use crate::queue_spec::{
    after_leave, after_move_to_end, after_move_to_front, after_remove, after_reorder, lemma_max_position,
    max_position, pos, positions_dense, queue_len, queued, rows_wf, shifted,
};
use crate::state::{JobStatus, JobView};

verus! {

/// The positions at which jobs wait.
pub open spec fn taken(rows: Seq<JobView>) -> Set<int> {
    Set::new(
        |p: int| exists|i: int| 0 <= i < rows.len() && queued(#[trigger] rows[i]) && pos(rows[i]) == p,
    )
}

/// No two waiting jobs stand at the same position.
pub open spec fn positions_differ(rows: Seq<JobView>) -> bool {
    forall|i: int, j: int|
        0 <= i < j < rows.len() && queued(#[trigger] rows[i]) && queued(#[trigger] rows[j])
            ==> pos(rows[i]) != pos(rows[j])
}

/// Where no two waiting jobs share a position, there are as many positions
/// taken as jobs wait.
pub proof fn lemma_taken_len(rows: Seq<JobView>)
    requires
        positions_differ(rows),
    ensures
        taken(rows).finite(),
        taken(rows).len() == queue_len(rows),
    decreases rows.len(),
{
    if rows.len() == 0 {
        assert(taken(rows) =~= Set::<int>::empty());
    } else {
        let rest = rows.drop_last();
        let last = rows.last();
        assert forall|i: int| 0 <= i < rest.len() implies #[trigger] rest[i] == rows[i] by {}
        assert(positions_differ(rest)) by {
            assert forall|i: int, j: int|
                0 <= i < j < rest.len() && queued(#[trigger] rest[i]) && queued(
                    #[trigger] rest[j],
                ) implies pos(rest[i]) != pos(rest[j]) by {
                assert(queued(rows[i]) && queued(rows[j]));
            }
        }
        lemma_taken_len(rest);
        if queued(last) {
            assert(!taken(rest).contains(pos(last))) by {
                if taken(rest).contains(pos(last)) {
                    let i = choose|i: int|
                        0 <= i < rest.len() && queued(#[trigger] rest[i]) && pos(rest[i]) == pos(
                            last,
                        );
                    assert(queued(rows[i]) && queued(rows[rows.len() - 1]));
                }
            }
            assert(taken(rows) =~= taken(rest).insert(pos(last))) by {
                assert forall|p: int| taken(rows).contains(p) implies taken(rest).insert(
                    pos(last),
                ).contains(p) by {
                    let i = choose|i: int|
                        0 <= i < rows.len() && queued(#[trigger] rows[i]) && pos(rows[i]) == p;
                    if i < rest.len() {
                        assert(queued(rest[i]) && pos(rest[i]) == p);
                    }
                }
                assert forall|p: int| taken(rest).insert(pos(last)).contains(p) implies taken(
                    rows,
                ).contains(p) by {
                    if p == pos(last) {
                        assert(queued(rows[rows.len() - 1]) && pos(rows[rows.len() - 1]) == p);
                    } else {
                        let i = choose|i: int|
                            0 <= i < rest.len() && queued(#[trigger] rest[i]) && pos(rest[i]) == p;
                        assert(queued(rows[i]) && pos(rows[i]) == p);
                    }
                }
            }
        } else {
            assert(taken(rows) =~= taken(rest)) by {
                assert forall|p: int| taken(rows).contains(p) implies taken(rest).contains(p) by {
                    let i = choose|i: int|
                        0 <= i < rows.len() && queued(#[trigger] rows[i]) && pos(rows[i]) == p;
                    assert(i < rest.len());
                    assert(queued(rest[i]) && pos(rest[i]) == p);
                }
                assert forall|p: int| taken(rest).contains(p) implies taken(rows).contains(p) by {
                    let i = choose|i: int|
                        0 <= i < rest.len() && queued(#[trigger] rest[i]) && pos(rest[i]) == p;
                    assert(queued(rows[i]) && pos(rows[i]) == p);
                }
            }
        }
    }
}

/// In a valid table the waiting jobs stand at the positions `1..=K` with no
/// gap: at each of these positions a job waits, and the last position is the
/// number of waiting jobs.
pub proof fn lemma_positions_cover(rows: Seq<JobView>)
    requires
        positions_dense(rows),
    ensures
        taken(rows) == set_int_range(1, queue_len(rows) as int + 1),
        forall|p: int| 1 <= p <= queue_len(rows) ==> #[trigger] taken(rows).contains(p),
        max_position(rows) == queue_len(rows),
{
    let k = queue_len(rows) as int;
    lemma_taken_len(rows);
    lemma_int_range(1, k + 1);
    assert(taken(rows).subset_of(set_int_range(1, k + 1))) by {
        assert forall|p: int| taken(rows).contains(p) implies set_int_range(1, k + 1).contains(
            p,
        ) by {
            let i = choose|i: int|
                0 <= i < rows.len() && queued(#[trigger] rows[i]) && pos(rows[i]) == p;
            assert(queued(rows[i]));
        }
    }
    lemma_subset_equality(taken(rows), set_int_range(1, k + 1));
    assert forall|p: int| 1 <= p <= queue_len(rows) implies #[trigger] taken(rows).contains(
        p,
    ) by {
        assert(set_int_range(1, k + 1).contains(p));
    }
    lemma_max_position(rows);
    lemma_max_le_len(rows);
    if k > 0 {
        assert(taken(rows).contains(k));
        let i = choose|i: int|
            0 <= i < rows.len() && queued(#[trigger] rows[i]) && pos(rows[i]) == k;
        assert(queued(rows[i]));
    }
}

/// Removing a waiting job leaves the other waiting jobs in their order: of
/// two rows that remain, the one that stood before the other still does.
pub proof fn lemma_remove_keeps_order(rows: Seq<JobView>, idx: int, a: int, b: int)
    requires
        rows_wf(rows),
        0 <= idx < rows.len(),
        queued(rows[idx]),
        0 <= a < rows.len() - 1,
        0 <= b < rows.len() - 1,
    ensures
        ({
            let oa = if a < idx { a } else { a + 1 };
            let ob = if b < idx { b } else { b + 1 };
            let new = after_remove(rows, idx);
            &&& new.len() == rows.len() - 1
            &&& new[a].id == rows[oa].id
            &&& queued(new[a]) == queued(rows[oa])
            &&& queued(rows[oa]) && queued(rows[ob]) ==> (pos(new[a]) < pos(new[b])) == (pos(
                rows[oa],
            ) < pos(rows[ob]))
            &&& queued(rows[oa]) ==> pos(new[a]) == if pos(rows[oa]) > pos(rows[idx]) {
                pos(rows[oa]) - 1
            } else {
                pos(rows[oa])
            }
        }),
{
    let p = pos(rows[idx]);
    let mid = rows.remove(idx);
    let new = after_remove(rows, idx);
    let oa = if a < idx { a } else { a + 1 };
    let ob = if b < idx { b } else { b + 1 };
    assert(mid[a] == rows[oa]);
    assert(mid[b] == rows[ob]);
    assert(new[a] == shifted(rows[oa], p + 1, i64::MAX as int, -1));
    assert(new[b] == shifted(rows[ob], p + 1, i64::MAX as int, -1));
    if queued(rows[oa]) {
        assert(pos(rows[oa]) != p);
    }
    if queued(rows[ob]) {
        assert(pos(rows[ob]) != p);
    }
}

/// Moving a waiting job to the front puts it at position 1 and leaves the
/// other waiting jobs in their order.
pub proof fn lemma_move_to_front_keeps_order(rows: Seq<JobView>, idx: int, a: int, b: int)
    requires
        rows_wf(rows),
        0 <= idx < rows.len(),
        queued(rows[idx]),
        0 <= a < rows.len(),
        0 <= b < rows.len(),
        a != idx,
        b != idx,
        queued(rows[a]),
        queued(rows[b]),
    ensures
        pos(after_move_to_front(rows, idx)[idx]) == 1,
        (pos(after_move_to_front(rows, idx)[a]) < pos(after_move_to_front(rows, idx)[b])) == (pos(
            rows[a],
        ) < pos(rows[b])),
        pos(after_move_to_front(rows, idx)[a]) > 1,
{
    let p = pos(rows[idx]);
    let new = after_move_to_front(rows, idx);
    assert(new[a] == shifted(rows[a], i64::MIN as int, p - 1, 1));
    assert(new[b] == shifted(rows[b], i64::MIN as int, p - 1, 1));
    assert(pos(rows[a]) != p && pos(rows[b]) != p);
}

/// Moving a waiting job to the end puts it at the last position, which is
/// the number of waiting jobs, and leaves the other waiting jobs in their
/// order.
pub proof fn lemma_move_to_end_keeps_order(rows: Seq<JobView>, idx: int, a: int, b: int)
    requires
        rows_wf(rows),
        0 <= idx < rows.len(),
        queued(rows[idx]),
        0 <= a < rows.len(),
        0 <= b < rows.len(),
        a != idx,
        b != idx,
        queued(rows[a]),
        queued(rows[b]),
    ensures
        pos(after_move_to_end(rows, idx)[idx]) == queue_len(rows),
        (pos(after_move_to_end(rows, idx)[a]) < pos(after_move_to_end(rows, idx)[b])) == (pos(
            rows[a],
        ) < pos(rows[b])),
        pos(after_move_to_end(rows, idx)[a]) < queue_len(rows),
{
    let p = pos(rows[idx]);
    let new = after_move_to_end(rows, idx);
    lemma_positions_cover(rows);
    lemma_max_position(rows);
    assert(new[a] == shifted(rows[a], p + 1, i64::MAX as int, -1));
    assert(new[b] == shifted(rows[b], p + 1, i64::MAX as int, -1));
    assert(pos(rows[a]) != p && pos(rows[b]) != p);
    assert(pos(rows[a]) <= max_position(rows) && pos(rows[idx]) <= max_position(rows));
}

/// Moving a waiting job to a position of the queue puts it there and leaves
/// the other waiting jobs in their order.
pub proof fn lemma_reorder_keeps_order(rows: Seq<JobView>, idx: int, to: int, a: int, b: int)
    requires
        rows_wf(rows),
        0 <= idx < rows.len(),
        queued(rows[idx]),
        1 <= to <= queue_len(rows),
        to <= i64::MAX,
        0 <= a < rows.len(),
        0 <= b < rows.len(),
        a != idx,
        b != idx,
        queued(rows[a]),
        queued(rows[b]),
    ensures
        pos(after_reorder(rows, idx, to)[idx]) == to,
        (pos(after_reorder(rows, idx, to)[a]) < pos(after_reorder(rows, idx, to)[b])) == (pos(
            rows[a],
        ) < pos(rows[b])),
        pos(after_reorder(rows, idx, to)[a]) != to,
{
    let p = pos(rows[idx]);
    let new = after_reorder(rows, idx, to);
    if to < p {
        assert(new[a] == shifted(rows[a], to, p - 1, 1));
        assert(new[b] == shifted(rows[b], to, p - 1, 1));
    } else {
        assert(new[a] == shifted(rows[a], p + 1, to, -1));
        assert(new[b] == shifted(rows[b], p + 1, to, -1));
    }
    assert(pos(rows[a]) != p && pos(rows[b]) != p);
}

// ---------------------------------------------------------------------------
// The queue as a sequence
// ---------------------------------------------------------------------------

/// The index of the job that waits at the position.
pub open spec fn holder(rows: Seq<JobView>, p: int) -> int {
    choose|i: int| 0 <= i < rows.len() && queued(#[trigger] rows[i]) && pos(rows[i]) == p
}

/// The queue: the ids of the waiting jobs in the order of their positions,
/// the job at position 1 first.
pub open spec fn queue_ids(rows: Seq<JobView>) -> Seq<i64> {
    Seq::new(queue_len(rows), |k: int| rows[holder(rows, k + 1)].id)
}

/// In a valid table the job that waits at a position is the only one there.
pub proof fn lemma_holder(rows: Seq<JobView>, i: int)
    requires
        positions_dense(rows),
        0 <= i < rows.len(),
        queued(rows[i]),
    ensures
        holder(rows, pos(rows[i])) == i,
        1 <= pos(rows[i]) <= queue_len(rows),
        queue_ids(rows)[pos(rows[i]) - 1] == rows[i].id,
{
    let h = holder(rows, pos(rows[i]));
    assert(queued(rows[h]) && pos(rows[h]) == pos(rows[i]));
    if h < i {
        assert(pos(rows[h]) != pos(rows[i]));
    }
    if i < h {
        assert(pos(rows[i]) != pos(rows[h]));
    }
}

/// In a valid table a job waits at each position of the queue.
pub proof fn lemma_holder_exists(rows: Seq<JobView>, p: int)
    requires
        positions_dense(rows),
        1 <= p <= queue_len(rows),
    ensures
        0 <= holder(rows, p) < rows.len(),
        queued(rows[holder(rows, p)]),
        pos(rows[holder(rows, p)]) == p,
{
    lemma_positions_cover(rows);
    assert(taken(rows).contains(p));
}

/// Removing a waiting job takes its id out of the queue and leaves the rest
/// of the queue as it was.
pub proof fn lemma_remove_in_queue(rows: Seq<JobView>, idx: int)
    requires
        rows_wf(rows),
        0 <= idx < rows.len(),
        queued(rows[idx]),
    ensures
        queue_ids(after_remove(rows, idx)) == queue_ids(rows).remove(pos(rows[idx]) - 1),
{
    let p = pos(rows[idx]);
    let new = after_remove(rows, idx);
    lemma_remove_keeps_wf(rows, idx);
    lemma_holder(rows, idx);
    let a = queue_ids(new);
    let b = queue_ids(rows).remove(p - 1);
    assert(a.len() == b.len());
    assert forall|k: int| 0 <= k < a.len() implies a[k] == b[k] by {
        let q = if k + 1 < p { k + 1 } else { k + 2 };
        lemma_holder_exists(rows, q);
        let i = holder(rows, q);
        let j = if i < idx { i } else { i - 1 };
        assert(rows.remove(idx)[j] == rows[i]);
        assert(new[j] == shifted(rows[i], p + 1, i64::MAX as int, -1));
        assert(queued(new[j]) && pos(new[j]) == k + 1);
        lemma_holder(new, j);
    }
    assert(a =~= b);
}

/// Moving a waiting job to the front puts its id first in the queue and
/// leaves the rest of the queue as it was.
pub proof fn lemma_move_to_front_in_queue(rows: Seq<JobView>, idx: int)
    requires
        rows_wf(rows),
        0 <= idx < rows.len(),
        queued(rows[idx]),
    ensures
        queue_ids(after_move_to_front(rows, idx)) == seq![rows[idx].id] + queue_ids(rows).remove(
            pos(rows[idx]) - 1,
        ),
{
    let p = pos(rows[idx]);
    let new = after_move_to_front(rows, idx);
    lemma_move_to_front_keeps_wf(rows, idx);
    lemma_holder(rows, idx);
    let a = queue_ids(new);
    let b = seq![rows[idx].id] + queue_ids(rows).remove(p - 1);
    assert(a.len() == b.len());
    assert forall|k: int| 0 <= k < a.len() implies a[k] == b[k] by {
        if k == 0 {
            assert(queued(new[idx]) && pos(new[idx]) == 1);
            lemma_holder(new, idx);
        } else {
            let q = if k < p { k } else { k + 1 };
            lemma_holder_exists(rows, q);
            let i = holder(rows, q);
            assert(i != idx);
            assert(new[i] == shifted(rows[i], i64::MIN as int, p - 1, 1));
            assert(queued(new[i]) && pos(new[i]) == k + 1);
            lemma_holder(new, i);
            assert(b[k] == queue_ids(rows).remove(p - 1)[k - 1]);
        }
    }
    assert(a =~= b);
}

/// Moving a waiting job to the end puts its id last in the queue and leaves
/// the rest of the queue as it was.
pub proof fn lemma_move_to_end_in_queue(rows: Seq<JobView>, idx: int)
    requires
        rows_wf(rows),
        0 <= idx < rows.len(),
        queued(rows[idx]),
    ensures
        queue_ids(after_move_to_end(rows, idx)) == queue_ids(rows).remove(
            pos(rows[idx]) - 1,
        ).push(rows[idx].id),
{
    let p = pos(rows[idx]);
    let n = queue_len(rows) as int;
    let new = after_move_to_end(rows, idx);
    lemma_move_to_end_keeps_wf(rows, idx);
    lemma_positions_cover(rows);
    lemma_holder(rows, idx);
    let a = queue_ids(new);
    let b = queue_ids(rows).remove(p - 1).push(rows[idx].id);
    assert(a.len() == b.len());
    assert forall|k: int| 0 <= k < a.len() implies a[k] == b[k] by {
        if k == n - 1 {
            lemma_holder_exists(rows, n);
            assert(pos(rows[holder(rows, n)]) == max_position(rows));
            assert(queued(new[idx]) && pos(new[idx]) == n);
            lemma_holder(new, idx);
        } else {
            let q = if k + 1 < p { k + 1 } else { k + 2 };
            lemma_holder_exists(rows, q);
            let i = holder(rows, q);
            assert(i != idx);
            assert(new[i] == shifted(rows[i], p + 1, i64::MAX as int, -1));
            assert(queued(new[i]) && pos(new[i]) == k + 1);
            lemma_holder(new, i);
        }
    }
    assert(a =~= b);
}

/// Moving a waiting job to a position of the queue takes its id out of the
/// queue and puts it in at that position; the rest of the queue stays in its
/// order.
pub proof fn lemma_reorder_in_queue(rows: Seq<JobView>, idx: int, to: int)
    requires
        rows_wf(rows),
        0 <= idx < rows.len(),
        queued(rows[idx]),
        1 <= to <= queue_len(rows),
        to <= i64::MAX,
    ensures
        queue_ids(after_reorder(rows, idx, to)) == queue_ids(rows).remove(
            pos(rows[idx]) - 1,
        ).insert(to - 1, rows[idx].id),
{
    let p = pos(rows[idx]);
    let new = after_reorder(rows, idx, to);
    lemma_reorder_keeps_wf(rows, idx, to);
    lemma_holder(rows, idx);
    let a = queue_ids(new);
    let rest = queue_ids(rows).remove(p - 1);
    let b = rest.insert(to - 1, rows[idx].id);
    assert(a.len() == b.len());
    assert forall|k: int| 0 <= k < a.len() implies a[k] == b[k] by {
        if k == to - 1 {
            assert(queued(new[idx]) && pos(new[idx]) == to);
            lemma_holder(new, idx);
        } else {
            // The place of the job in the queue without the moved one, and
            // the position that it had.
            let r = if k < to - 1 { k } else { k - 1 };
            let q = if r + 1 < p { r + 1 } else { r + 2 };
            lemma_holder_exists(rows, q);
            let i = holder(rows, q);
            assert(i != idx);
            if to < p {
                assert(new[i] == shifted(rows[i], to, p - 1, 1));
            } else {
                assert(new[i] == shifted(rows[i], p + 1, to, -1));
            }
            assert(queued(new[i]) && pos(new[i]) == k + 1);
            lemma_holder(new, i);
            assert(b[k] == rest[r]);
        }
    }
    assert(a =~= b);
}

/// Appending a job right behind the last position puts its id at the end of
/// the queue.
pub proof fn lemma_push_in_queue(rows: Seq<JobView>, r: JobView)
    requires
        rows_wf(rows),
        r.id >= 1,
        forall|i: int| 0 <= i < rows.len() ==> (#[trigger] rows[i]).id < r.id,
        queued(r),
        pos(r) == max_position(rows) + 1,
    ensures
        queue_ids(rows.push(r)) == queue_ids(rows).push(r.id),
{
    let new = rows.push(r);
    lemma_push_keeps_wf(rows, r);
    lemma_positions_cover(rows);
    let n = queue_len(rows) as int;
    let a = queue_ids(new);
    let b = queue_ids(rows).push(r.id);
    assert(a.len() == b.len());
    assert forall|k: int| 0 <= k < a.len() implies a[k] == b[k] by {
        if k == n {
            assert(new[rows.len() as int] == r);
            lemma_holder(new, rows.len() as int);
        } else {
            lemma_holder_exists(rows, k + 1);
            let i = holder(rows, k + 1);
            assert(new[i] == rows[i]);
            lemma_holder(new, i);
        }
    }
    assert(a =~= b);
}

/// A job that leaves the queue, by starting to run or by ending, is taken
/// out of the queue; the rest of the queue stays as it was.
pub proof fn lemma_leave_in_queue(rows: Seq<JobView>, idx: int, next: JobView)
    requires
        rows_wf(rows),
        0 <= idx < rows.len(),
        queued(rows[idx]),
        next.id == rows[idx].id,
        !queued(next),
        next.status == JobStatus::Running ==> (forall|i: int|
            0 <= i < rows.len() && i != idx ==> (#[trigger] rows[i]).status != JobStatus::Running),
    ensures
        queue_ids(after_leave(rows, idx, next)) == queue_ids(rows).remove(pos(rows[idx]) - 1),
{
    let p = pos(rows[idx]);
    let new = after_leave(rows, idx, next);
    lemma_leave_keeps_wf(rows, idx, next);
    lemma_holder(rows, idx);
    let a = queue_ids(new);
    let b = queue_ids(rows).remove(p - 1);
    assert(a.len() == b.len());
    assert forall|k: int| 0 <= k < a.len() implies a[k] == b[k] by {
        let q = if k + 1 < p { k + 1 } else { k + 2 };
        lemma_holder_exists(rows, q);
        let i = holder(rows, q);
        assert(i != idx);
        assert(rows.update(idx, next)[i] == rows[i]);
        assert(new[i] == shifted(rows[i], p + 1, i64::MAX as int, -1));
        assert(queued(new[i]) && pos(new[i]) == k + 1);
        lemma_holder(new, i);
    }
    assert(a =~= b);
}

} // verus!
