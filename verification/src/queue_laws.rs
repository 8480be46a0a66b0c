//! Every queue operation turns a valid job table into a valid one, and
//! leaves the jobs it does not move in their order.

use vstd::prelude::*;
use crate::queue_spec::{
    after_cancel, after_leave, after_move_to_end, after_move_to_front, after_remove, after_reorder,
    ids_increase, lemma_max_position, lemma_queue_len_remove, lemma_queue_len_same,
    lemma_queue_len_shift, lemma_queue_len_update, max_position, one_running, placed, pos,
    positions_dense, queue_len, queued, rows_wf, select, shifted,
};
use crate::state::{JobStatus, JobView};

verus! {

/// Removing a waiting job leaves a valid table, with one job fewer waiting.
pub proof fn lemma_remove_keeps_wf(rows: Seq<JobView>, idx: int)
    requires
        rows_wf(rows),
        0 <= idx < rows.len(),
        queued(rows[idx]),
    ensures
        rows_wf(after_remove(rows, idx)),
        queue_len(after_remove(rows, idx)) + 1 == queue_len(rows),
{
    let p = pos(rows[idx]);
    let mid = rows.remove(idx);
    let new = after_remove(rows, idx);
    lemma_queue_len_remove(rows, idx);
    lemma_queue_len_shift(mid, p + 1, i64::MAX as int, -1);
    assert forall|i: int| 0 <= i < new.len() implies #[trigger] new[i] == shifted(
        rows[if i < idx { i } else { i + 1 }],
        p + 1,
        i64::MAX as int,
        -1,
    ) by {
        assert(mid[i] == rows[if i < idx { i } else { i + 1 }]);
    }
    assert(ids_increase(new)) by {
        assert forall|i: int, j: int| 0 <= i < j < new.len() implies (#[trigger] new[i]).id < (
        #[trigger] new[j]).id by {
            let oi = if i < idx { i } else { i + 1 };
            let oj = if j < idx { j } else { j + 1 };
            assert(rows[oi].id < rows[oj].id);
        }
        assert forall|i: int| 0 <= i < new.len() implies (#[trigger] new[i]).id >= 1 by {
            let oi = if i < idx { i } else { i + 1 };
            assert(rows[oi].id >= 1);
        }
    }
    assert(one_running(new)) by {
        assert forall|i: int, j: int|
            0 <= i < new.len() && 0 <= j < new.len() && (#[trigger] new[i]).status
                == JobStatus::Running && (#[trigger] new[j]).status
                == JobStatus::Running implies i == j by {
            let oi = if i < idx { i } else { i + 1 };
            let oj = if j < idx { j } else { j + 1 };
            assert(rows[oi].status == JobStatus::Running);
            assert(rows[oj].status == JobStatus::Running);
        }
    }
    assert(positions_dense(new)) by {
        assert forall|i: int| 0 <= i < new.len() && queued(#[trigger] new[i]) implies 1 <= pos(
            new[i],
        ) <= queue_len(new) by {
            let oi = if i < idx { i } else { i + 1 };
            assert(queued(rows[oi]));
            assert(pos(rows[oi]) != p);
        }
        assert forall|i: int, j: int|
            0 <= i < j < new.len() && queued(#[trigger] new[i]) && queued(
                #[trigger] new[j],
            ) implies pos(new[i]) != pos(new[j]) by {
            let oi = if i < idx { i } else { i + 1 };
            let oj = if j < idx { j } else { j + 1 };
            assert(queued(rows[oi]) && queued(rows[oj]));
            assert(pos(rows[oi]) != pos(rows[oj]));
        }
    }
}

/// Deleting a job that does not wait in the queue leaves a valid table.
pub proof fn lemma_delete_keeps_wf(rows: Seq<JobView>, idx: int)
    requires
        rows_wf(rows),
        0 <= idx < rows.len(),
        !queued(rows[idx]),
    ensures
        rows_wf(rows.remove(idx)),
        queue_len(rows.remove(idx)) == queue_len(rows),
{
    let new = rows.remove(idx);
    lemma_queue_len_remove(rows, idx);
    assert forall|i: int| 0 <= i < new.len() implies #[trigger] new[i] == rows[if i < idx {
        i
    } else {
        i + 1
    }] by {}
    assert(ids_increase(new)) by {
        assert forall|i: int, j: int| 0 <= i < j < new.len() implies (#[trigger] new[i]).id < (
        #[trigger] new[j]).id by {
            let oi = if i < idx { i } else { i + 1 };
            let oj = if j < idx { j } else { j + 1 };
            assert(rows[oi].id < rows[oj].id);
        }
        assert forall|i: int| 0 <= i < new.len() implies (#[trigger] new[i]).id >= 1 by {
            let oi = if i < idx { i } else { i + 1 };
            assert(rows[oi].id >= 1);
        }
    }
    assert(one_running(new)) by {
        assert forall|i: int, j: int|
            0 <= i < new.len() && 0 <= j < new.len() && (#[trigger] new[i]).status
                == JobStatus::Running && (#[trigger] new[j]).status
                == JobStatus::Running implies i == j by {
            let oi = if i < idx { i } else { i + 1 };
            let oj = if j < idx { j } else { j + 1 };
            assert(rows[oi].status == JobStatus::Running);
            assert(rows[oj].status == JobStatus::Running);
        }
    }
    assert(positions_dense(new)) by {
        assert forall|i: int| 0 <= i < new.len() && queued(#[trigger] new[i]) implies 1 <= pos(
            new[i],
        ) <= queue_len(new) by {
            let oi = if i < idx { i } else { i + 1 };
            assert(queued(rows[oi]));
        }
        assert forall|i: int, j: int|
            0 <= i < j < new.len() && queued(#[trigger] new[i]) && queued(
                #[trigger] new[j],
            ) implies pos(new[i]) != pos(new[j]) by {
            let oi = if i < idx { i } else { i + 1 };
            let oj = if j < idx { j } else { j + 1 };
            assert(queued(rows[oi]) && queued(rows[oj]));
            assert(pos(rows[oi]) != pos(rows[oj]));
        }
    }
}

/// A table whose rows agree with those of a valid table in id, in status and
/// in whether they hold a position, and whose waiting jobs stand at distinct
/// positions within the length of the queue, is valid.
pub proof fn lemma_repositioned_wf(rows: Seq<JobView>, new: Seq<JobView>)
    requires
        rows_wf(rows),
        new.len() == rows.len(),
        forall|i: int|
            0 <= i < rows.len() ==> (#[trigger] new[i]).id == rows[i].id && new[i].status
                == rows[i].status && (new[i].queue_position is Some) == (
            rows[i].queue_position is Some),
        forall|i: int|
            0 <= i < new.len() && queued(#[trigger] new[i]) ==> 1 <= pos(new[i]) <= queue_len(
                rows,
            ),
        forall|i: int, j: int|
            0 <= i < j < new.len() && queued(#[trigger] new[i]) && queued(#[trigger] new[j])
                ==> pos(new[i]) != pos(new[j]),
    ensures
        rows_wf(new),
        queue_len(new) == queue_len(rows),
{
    lemma_queue_len_same(rows, new);
    assert(ids_increase(new)) by {
        assert forall|i: int, j: int| 0 <= i < j < new.len() implies (#[trigger] new[i]).id < (
        #[trigger] new[j]).id by {
            assert(rows[i].id < rows[j].id);
        }
        assert forall|i: int| 0 <= i < new.len() implies (#[trigger] new[i]).id >= 1 by {
            assert(rows[i].id >= 1);
        }
    }
    assert(one_running(new)) by {
        assert forall|i: int, j: int|
            0 <= i < new.len() && 0 <= j < new.len() && (#[trigger] new[i]).status
                == JobStatus::Running && (#[trigger] new[j]).status
                == JobStatus::Running implies i == j by {
            assert(rows[i].status == JobStatus::Running);
            assert(rows[j].status == JobStatus::Running);
        }
    }
}

/// Moving a waiting job to the front leaves a valid table.
pub proof fn lemma_move_to_front_keeps_wf(rows: Seq<JobView>, idx: int)
    requires
        rows_wf(rows),
        0 <= idx < rows.len(),
        queued(rows[idx]),
    ensures
        rows_wf(after_move_to_front(rows, idx)),
        queue_len(after_move_to_front(rows, idx)) == queue_len(rows),
{
    let p = pos(rows[idx]);
    let new = after_move_to_front(rows, idx);
    assert forall|i: int| 0 <= i < new.len() implies #[trigger] new[i] == (if i == idx {
        placed(rows[idx], 1)
    } else {
        shifted(rows[i], i64::MIN as int, p - 1, 1)
    }) by {}
    assert forall|i: int| 0 <= i < new.len() && queued(#[trigger] new[i]) implies 1 <= pos(
        new[i],
    ) <= queue_len(rows) by {
        assert(queued(rows[i]));
    }
    assert forall|i: int, j: int|
        0 <= i < j < new.len() && queued(#[trigger] new[i]) && queued(
            #[trigger] new[j],
        ) implies pos(new[i]) != pos(new[j]) by {
        assert(queued(rows[i]) && queued(rows[j]));
        assert(pos(rows[i]) != pos(rows[j]));
        assert(i != idx ==> pos(rows[i]) != p);
        assert(j != idx ==> pos(rows[j]) != p);
    }
    lemma_repositioned_wf(rows, new);
}

/// Moving a waiting job to the end leaves a valid table.
pub proof fn lemma_move_to_end_keeps_wf(rows: Seq<JobView>, idx: int)
    requires
        rows_wf(rows),
        0 <= idx < rows.len(),
        queued(rows[idx]),
    ensures
        rows_wf(after_move_to_end(rows, idx)),
        queue_len(after_move_to_end(rows, idx)) == queue_len(rows),
{
    let p = pos(rows[idx]);
    let m = max_position(rows);
    let new = after_move_to_end(rows, idx);
    lemma_max_position(rows);
    let w = choose|i: int| 0 <= i < rows.len() && queued(#[trigger] rows[i]) && pos(rows[i]) == m;
    assert(queued(rows[w]) && pos(rows[w]) == m);
    assert forall|i: int| 0 <= i < new.len() implies #[trigger] new[i] == (if i == idx {
        placed(rows[idx], m)
    } else {
        shifted(rows[i], p + 1, i64::MAX as int, -1)
    }) by {}
    assert forall|i: int| 0 <= i < new.len() && queued(#[trigger] new[i]) implies 1 <= pos(
        new[i],
    ) <= queue_len(rows) by {
        assert(queued(rows[i]));
    }
    assert forall|i: int, j: int|
        0 <= i < j < new.len() && queued(#[trigger] new[i]) && queued(
            #[trigger] new[j],
        ) implies pos(new[i]) != pos(new[j]) by {
        assert(queued(rows[i]) && queued(rows[j]));
        assert(pos(rows[i]) != pos(rows[j]));
        assert(i != idx ==> pos(rows[i]) != p);
        assert(j != idx ==> pos(rows[j]) != p);
        assert(pos(rows[i]) <= m && pos(rows[j]) <= m);
    }
    lemma_repositioned_wf(rows, new);
}

/// Moving a waiting job to a position within the queue leaves a valid table.
pub proof fn lemma_reorder_keeps_wf(rows: Seq<JobView>, idx: int, to: int)
    requires
        rows_wf(rows),
        0 <= idx < rows.len(),
        queued(rows[idx]),
        1 <= to <= queue_len(rows),
        to <= i64::MAX,
    ensures
        rows_wf(after_reorder(rows, idx, to)),
        queue_len(after_reorder(rows, idx, to)) == queue_len(rows),
{
    let p = pos(rows[idx]);
    let new = after_reorder(rows, idx, to);
    assert forall|i: int| 0 <= i < new.len() implies #[trigger] new[i] == (if i == idx {
        placed(rows[idx], to)
    } else if to < p {
        shifted(rows[i], to, p - 1, 1)
    } else {
        shifted(rows[i], p + 1, to, -1)
    }) by {}
    assert forall|i: int| 0 <= i < new.len() && queued(#[trigger] new[i]) implies 1 <= pos(
        new[i],
    ) <= queue_len(rows) by {
        assert(queued(rows[i]));
    }
    assert forall|i: int, j: int|
        0 <= i < j < new.len() && queued(#[trigger] new[i]) && queued(
            #[trigger] new[j],
        ) implies pos(new[i]) != pos(new[j]) by {
        assert(queued(rows[i]) && queued(rows[j]));
        assert(pos(rows[i]) != pos(rows[j]));
        assert(i != idx ==> pos(rows[i]) != p);
        assert(j != idx ==> pos(rows[j]) != p);
    }
    lemma_repositioned_wf(rows, new);
}

/// Changing a job into one that does not wait in the queue, with the same id
/// and without making a second job run, leaves a valid table.
pub proof fn lemma_leave_keeps_wf(rows: Seq<JobView>, idx: int, next: JobView)
    requires
        rows_wf(rows),
        0 <= idx < rows.len(),
        next.id == rows[idx].id,
        !queued(next),
        next.status == JobStatus::Running ==> (forall|i: int|
            0 <= i < rows.len() && i != idx ==> (#[trigger] rows[i]).status != JobStatus::Running),
    ensures
        rows_wf(after_leave(rows, idx, next)),
        queue_len(after_leave(rows, idx, next)) + (if queued(rows[idx]) {
            1nat
        } else {
            0nat
        }) == queue_len(rows),
{
    let mid = rows.update(idx, next);
    let new = after_leave(rows, idx, next);
    lemma_queue_len_update(rows, idx, next);
    let p = pos(rows[idx]);
    if queued(rows[idx]) {
        lemma_queue_len_shift(mid, p + 1, i64::MAX as int, -1);
        assert forall|i: int| 0 <= i < new.len() implies #[trigger] new[i] == (if i == idx {
            next
        } else {
            shifted(rows[i], p + 1, i64::MAX as int, -1)
        }) by {}
    } else {
        assert forall|i: int| 0 <= i < new.len() implies #[trigger] new[i] == (if i == idx {
            next
        } else {
            rows[i]
        }) by {}
    }
    assert(ids_increase(new)) by {
        assert forall|i: int, j: int| 0 <= i < j < new.len() implies (#[trigger] new[i]).id < (
        #[trigger] new[j]).id by {
            assert(rows[i].id < rows[j].id);
        }
        assert forall|i: int| 0 <= i < new.len() implies (#[trigger] new[i]).id >= 1 by {
            assert(rows[i].id >= 1);
        }
    }
    assert(one_running(new)) by {
        assert forall|i: int, j: int|
            0 <= i < new.len() && 0 <= j < new.len() && (#[trigger] new[i]).status
                == JobStatus::Running && (#[trigger] new[j]).status
                == JobStatus::Running implies i == j by {
            if i != idx {
                assert(rows[i].status == JobStatus::Running);
            }
            if j != idx {
                assert(rows[j].status == JobStatus::Running);
            }
        }
    }
    assert(positions_dense(new)) by {
        assert forall|i: int| 0 <= i < new.len() && queued(#[trigger] new[i]) implies 1 <= pos(
            new[i],
        ) <= queue_len(new) by {
            assert(queued(rows[i]));
            if queued(rows[idx]) {
                assert(pos(rows[i]) != p);
            }
        }
        assert forall|i: int, j: int|
            0 <= i < j < new.len() && queued(#[trigger] new[i]) && queued(
                #[trigger] new[j],
            ) implies pos(new[i]) != pos(new[j]) by {
            assert(queued(rows[i]) && queued(rows[j]));
            assert(pos(rows[i]) != pos(rows[j]));
        }
    }
}

/// Changing what a job holds besides its id, its status and its position
/// leaves a valid table.
pub proof fn lemma_update_keeps_wf(rows: Seq<JobView>, idx: int, next: JobView)
    requires
        rows_wf(rows),
        0 <= idx < rows.len(),
        next.id == rows[idx].id,
        next.status == rows[idx].status,
        next.queue_position == rows[idx].queue_position,
    ensures
        rows_wf(rows.update(idx, next)),
        queue_len(rows.update(idx, next)) == queue_len(rows),
{
    let new = rows.update(idx, next);
    assert forall|i: int| 0 <= i < new.len() && queued(#[trigger] new[i]) implies 1 <= pos(
        new[i],
    ) <= queue_len(rows) by {
        assert(queued(rows[i]));
    }
    assert forall|i: int, j: int|
        0 <= i < j < new.len() && queued(#[trigger] new[i]) && queued(
            #[trigger] new[j],
        ) implies pos(new[i]) != pos(new[j]) by {
        assert(queued(rows[i]) && queued(rows[j]));
        assert(pos(rows[i]) != pos(rows[j]));
    }
    lemma_repositioned_wf(rows, new);
}

/// Appending a pending job with a greater id, either outside the queue or
/// right behind its last position, leaves a valid table.
pub proof fn lemma_push_keeps_wf(rows: Seq<JobView>, r: JobView)
    requires
        rows_wf(rows),
        r.id >= 1,
        forall|i: int| 0 <= i < rows.len() ==> (#[trigger] rows[i]).id < r.id,
        r.status == JobStatus::Pending,
        r.queue_position is Some ==> pos(r) == max_position(rows) + 1,
    ensures
        rows_wf(rows.push(r)),
        queue_len(rows.push(r)) == queue_len(rows) + (if queued(r) {
            1nat
        } else {
            0nat
        }),
        queued(r) ==> max_position(rows.push(r)) == pos(r),
        !queued(r) ==> max_position(rows.push(r)) == max_position(rows),
{
    let new = rows.push(r);
    assert(new.drop_last() =~= rows);
    lemma_max_position(rows);
    lemma_max_le_len(rows);
    assert forall|i: int| 0 <= i < new.len() implies #[trigger] new[i] == (if i == rows.len() {
        r
    } else {
        rows[i]
    }) by {}
    assert(ids_increase(new));
    assert(one_running(new)) by {
        assert forall|i: int, j: int|
            0 <= i < new.len() && 0 <= j < new.len() && (#[trigger] new[i]).status
                == JobStatus::Running && (#[trigger] new[j]).status
                == JobStatus::Running implies i == j by {
            assert(rows[i].status == JobStatus::Running);
            assert(rows[j].status == JobStatus::Running);
        }
    }
    assert(positions_dense(new)) by {
        assert forall|i: int| 0 <= i < new.len() && queued(#[trigger] new[i]) implies 1 <= pos(
            new[i],
        ) <= queue_len(new) by {
            if i < rows.len() {
                assert(queued(rows[i]));
            }
        }
        assert forall|i: int, j: int|
            0 <= i < j < new.len() && queued(#[trigger] new[i]) && queued(
                #[trigger] new[j],
            ) implies pos(new[i]) != pos(new[j]) by {
            assert(queued(rows[i]));
            if j < rows.len() {
                assert(queued(rows[j]));
            }
        }
    }
}

/// In a valid table the greatest position is at most the number of waiting
/// jobs.
pub proof fn lemma_max_le_len(rows: Seq<JobView>)
    requires
        positions_dense(rows),
    ensures
        0 <= max_position(rows) <= queue_len(rows),
{
    lemma_max_position(rows);
    if max_position(rows) > 0 {
        let i = choose|i: int|
            0 <= i < rows.len() && queued(#[trigger] rows[i]) && pos(rows[i]) == max_position(
                rows,
            );
        assert(queued(rows[i]));
    }
}

/// A selection of rows keeps the order of the table: its ids grow, at most
/// one of its jobs runs, `pred` holds of each of its rows, and each is a row
/// of the table.
pub proof fn lemma_select_keeps(rows: Seq<JobView>, pred: spec_fn(JobView) -> bool)
    requires
        ids_increase(rows),
        one_running(rows),
    ensures
        ids_increase(select(rows, pred)),
        one_running(select(rows, pred)),
        select(rows, pred).len() <= rows.len(),
        forall|k: int|
            0 <= k < select(rows, pred).len() ==> pred(#[trigger] select(rows, pred)[k])
                && exists|j: int| k <= j < rows.len() && rows[j] == select(rows, pred)[k],
    decreases rows.len(),
{
    let new = select(rows, pred);
    if rows.len() > 0 {
        let rest = rows.drop_last();
        lemma_drop_last_wf(rows);
        lemma_select_keeps(rest, pred);
        let sub = select(rest, pred);
        assert forall|k: int| 0 <= k < new.len() implies pred(#[trigger] new[k]) && exists|
            j: int,
        | k <= j < rows.len() && rows[j] == new[k] by {
            if k < sub.len() {
                let j = choose|j: int| k <= j < rest.len() && rest[j] == sub[k];
                assert(rows[j] == new[k]);
            } else {
                assert(rows[rows.len() - 1] == new[k]);
            }
        }
        assert(ids_increase(new)) by {
            assert forall|i: int, j: int| 0 <= i < j < new.len() implies (#[trigger] new[i]).id
                < (#[trigger] new[j]).id by {
                if j < sub.len() {
                    assert(sub[i].id < sub[j].id);
                } else {
                    let oi = choose|o: int| i <= o < rest.len() && rest[o] == sub[i];
                    assert(rows[oi].id < rows[rows.len() - 1].id);
                }
            }
            assert forall|i: int| 0 <= i < new.len() implies (#[trigger] new[i]).id >= 1 by {
                if i < sub.len() {
                    assert(sub[i].id >= 1);
                } else {
                    assert(rows[rows.len() - 1].id >= 1);
                }
            }
        }
        assert(one_running(new)) by {
            assert forall|i: int, j: int|
                0 <= i < new.len() && 0 <= j < new.len() && (#[trigger] new[i]).status
                    == JobStatus::Running && (#[trigger] new[j]).status
                    == JobStatus::Running implies i == j by {
                let oi = choose|o: int| i <= o < rows.len() && rows[o] == new[i];
                let oj = choose|o: int| j <= o < rows.len() && rows[o] == new[j];
                assert(rows[oi].status == JobStatus::Running);
                assert(rows[oj].status == JobStatus::Running);
                assert(oi == oj);
                if i < j {
                    assert(new[i].id < new[j].id);
                }
                if j < i {
                    assert(new[j].id < new[i].id);
                }
            }
        }
    }
}

/// What is left of a valid table when every waiting job is taken out is a
/// valid table in which no job waits.
pub proof fn lemma_cancel_keeps_wf(rows: Seq<JobView>)
    requires
        rows_wf(rows),
    ensures
        rows_wf(after_cancel(rows)),
        queue_len(after_cancel(rows)) == 0,
{
    lemma_select_keeps(rows, |r: JobView| !queued(r));
    lemma_queue_len_zero(after_cancel(rows));
}

/// A table in which no job waits has an empty queue.
pub proof fn lemma_queue_len_zero(rows: Seq<JobView>)
    requires
        forall|i: int| 0 <= i < rows.len() ==> !queued(#[trigger] rows[i]),
    ensures
        queue_len(rows) == 0,
        max_position(rows) == 0,
    decreases rows.len(),
{
    if rows.len() > 0 {
        let rest = rows.drop_last();
        assert forall|i: int| 0 <= i < rest.len() implies !queued(#[trigger] rest[i]) by {
            assert(rest[i] == rows[i]);
        }
        lemma_queue_len_zero(rest);
        assert(rows.last() == rows[rows.len() - 1]);
    }
}

/// A table without its last row keeps growing ids and has at most one
/// running job, as the whole had; it is valid if the whole was and the last
/// row did not wait in the queue.
pub proof fn lemma_drop_last_wf(rows: Seq<JobView>)
    requires
        ids_increase(rows),
        one_running(rows),
        rows.len() > 0,
    ensures
        ids_increase(rows.drop_last()),
        one_running(rows.drop_last()),
        rows_wf(rows) && !queued(rows.last()) ==> rows_wf(rows.drop_last()),
{
    let rest = rows.drop_last();
    assert forall|i: int| 0 <= i < rest.len() implies #[trigger] rest[i] == rows[i] by {}
    assert(ids_increase(rest)) by {
        assert forall|i: int, j: int| 0 <= i < j < rest.len() implies (#[trigger] rest[i]).id < (
        #[trigger] rest[j]).id by {
            assert(rows[i].id < rows[j].id);
        }
        assert forall|i: int| 0 <= i < rest.len() implies (#[trigger] rest[i]).id >= 1 by {
            assert(rows[i].id >= 1);
        }
    }
    assert(one_running(rest)) by {
        assert forall|i: int, j: int|
            0 <= i < rest.len() && 0 <= j < rest.len() && (#[trigger] rest[i]).status
                == JobStatus::Running && (#[trigger] rest[j]).status
                == JobStatus::Running implies i == j by {
            assert(rows[i].status == JobStatus::Running);
            assert(rows[j].status == JobStatus::Running);
        }
    }
    if rows_wf(rows) && !queued(rows.last()) {
        assert(positions_dense(rest)) by {
            assert forall|i: int|
                0 <= i < rest.len() && queued(#[trigger] rest[i]) implies 1 <= pos(rest[i])
                <= queue_len(rest) by {
                assert(queued(rows[i]));
            }
            assert forall|i: int, j: int|
                0 <= i < j < rest.len() && queued(#[trigger] rest[i]) && queued(
                    #[trigger] rest[j],
                ) implies pos(rest[i]) != pos(rest[j]) by {
                assert(queued(rows[i]) && queued(rows[j]));
            }
        }
    }
}

} // verus!
