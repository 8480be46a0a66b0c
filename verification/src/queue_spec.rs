//! The job table as a mathematical object: what a valid table is, what each
//! queue operation makes of it, and why the operations keep it valid.
//!
//! A table is a sequence of job records in the order in which they were
//! inserted. The jobs that wait in the queue are those with status `Pending`
//! and a queue position; their positions are `1..=K` with no gap and no
//! duplicate, `K` being the number of such jobs.

use vstd::prelude::*;
use crate::state::{JobStatus, JobView};

verus! {

/// Whether the job waits in the queue.
pub open spec fn queued(r: JobView) -> bool {
    r.status == JobStatus::Pending && r.queue_position is Some
}

/// The queue position of a job that has one.
pub open spec fn pos(r: JobView) -> int {
    r.queue_position->0 as int
}

/// The number of jobs that wait in the queue.
pub open spec fn queue_len(rows: Seq<JobView>) -> nat
    decreases rows.len(),
{
    if rows.len() == 0 {
        0
    } else {
        queue_len(rows.drop_last()) + if queued(rows.last()) {
            1nat
        } else {
            0nat
        }
    }
}

/// The greatest position of a waiting job; 0 when none waits.
pub open spec fn max_position(rows: Seq<JobView>) -> int
    decreases rows.len(),
{
    if rows.len() == 0 {
        0
    } else {
        let m = max_position(rows.drop_last());
        if queued(rows.last()) && pos(rows.last()) > m {
            pos(rows.last())
        } else {
            m
        }
    }
}

/// Ids are positive and grow along the table, so no two jobs share one.
pub open spec fn ids_increase(rows: Seq<JobView>) -> bool {
    &&& forall|i: int| 0 <= i < rows.len() ==> (#[trigger] rows[i]).id >= 1
    &&& forall|i: int, j: int|
        0 <= i < j < rows.len() ==> (#[trigger] rows[i]).id < (#[trigger] rows[j]).id
}

/// At most one job has status `Running`.
pub open spec fn one_running(rows: Seq<JobView>) -> bool {
    forall|i: int, j: int|
        0 <= i < rows.len() && 0 <= j < rows.len() && (#[trigger] rows[i]).status
            == JobStatus::Running && (#[trigger] rows[j]).status == JobStatus::Running ==> i == j
}

/// The positions of the waiting jobs lie in `1..=K` and no two are equal, `K`
/// being the number of waiting jobs: they are `1..=K` exactly.
pub open spec fn positions_dense(rows: Seq<JobView>) -> bool {
    &&& forall|i: int|
        0 <= i < rows.len() && queued(#[trigger] rows[i]) ==> 1 <= pos(rows[i]) <= queue_len(rows)
    &&& forall|i: int, j: int|
        0 <= i < j < rows.len() && queued(#[trigger] rows[i]) && queued(#[trigger] rows[j])
            ==> pos(rows[i]) != pos(rows[j])
}

/// A valid job table.
pub open spec fn rows_wf(rows: Seq<JobView>) -> bool {
    &&& ids_increase(rows)
    &&& one_running(rows)
    &&& positions_dense(rows)
}

/// Whether some job of the table has the id.
pub open spec fn has_id(rows: Seq<JobView>, id: i64) -> bool {
    exists|i: int| 0 <= i < rows.len() && (#[trigger] rows[i]).id == id
}

/// The index of the job with the id, where there is one.
pub open spec fn index_of(rows: Seq<JobView>, id: i64) -> int {
    choose|i: int| 0 <= i < rows.len() && (#[trigger] rows[i]).id == id
}

/// Whether some job of the table is running.
pub open spec fn has_running(rows: Seq<JobView>) -> bool {
    exists|i: int| 0 <= i < rows.len() && (#[trigger] rows[i]).status == JobStatus::Running
}

/// The index of a running job, where there is one.
pub open spec fn running_index(rows: Seq<JobView>) -> int {
    choose|i: int| 0 <= i < rows.len() && (#[trigger] rows[i]).status == JobStatus::Running
}

// ---------------------------------------------------------------------------
// What the operations make of a table
// ---------------------------------------------------------------------------

/// The job with its position moved by `delta` if it waits at a position in
/// `lo..=hi`; the job as it is otherwise.
pub open spec fn shifted(r: JobView, lo: int, hi: int, delta: int) -> JobView {
    if queued(r) && lo <= pos(r) <= hi {
        JobView { queue_position: Some((pos(r) + delta) as i64), ..r }
    } else {
        r
    }
}

/// Every waiting job at a position in `lo..=hi` moved by `delta`.
pub open spec fn shift_all(rows: Seq<JobView>, lo: int, hi: int, delta: int) -> Seq<JobView> {
    rows.map_values(|r: JobView| shifted(r, lo, hi, delta))
}

/// The job at position `p`.
pub open spec fn placed(r: JobView, p: int) -> JobView {
    JobView { queue_position: Some(p as i64), ..r }
}

/// The table without the waiting job at `idx`: the jobs behind it move up by
/// one.
pub open spec fn after_remove(rows: Seq<JobView>, idx: int) -> Seq<JobView> {
    shift_all(rows.remove(idx), pos(rows[idx]) + 1, i64::MAX as int, -1)
}

/// The table with the waiting job at `idx` moved to position 1: the jobs
/// before it move back by one.
pub open spec fn after_move_to_front(rows: Seq<JobView>, idx: int) -> Seq<JobView> {
    shift_all(rows, i64::MIN as int, pos(rows[idx]) - 1, 1).update(idx, placed(rows[idx], 1))
}

/// The table with the waiting job at `idx` moved to the last position: the
/// jobs behind it move up by one.
pub open spec fn after_move_to_end(rows: Seq<JobView>, idx: int) -> Seq<JobView> {
    shift_all(rows, pos(rows[idx]) + 1, i64::MAX as int, -1).update(
        idx,
        placed(rows[idx], max_position(rows)),
    )
}

/// The table with the waiting job at `idx` moved to position `to`. Moving it
/// forward, the jobs at `to` up to the one before it move back by one; moving
/// it back, the jobs behind it up to `to` move up by one.
pub open spec fn after_reorder(rows: Seq<JobView>, idx: int, to: int) -> Seq<JobView> {
    let from = pos(rows[idx]);
    let others = if to < from {
        shift_all(rows, to, from - 1, 1)
    } else {
        shift_all(rows, from + 1, to, -1)
    };
    others.update(idx, placed(rows[idx], to))
}

/// The table once the job at `idx` has been changed to `next`, a job that
/// does not wait in the queue: if the job waited, the jobs behind it move up
/// by one.
pub open spec fn after_leave(rows: Seq<JobView>, idx: int, next: JobView) -> Seq<JobView> {
    if queued(rows[idx]) {
        shift_all(rows.update(idx, next), pos(rows[idx]) + 1, i64::MAX as int, -1)
    } else {
        rows.update(idx, next)
    }
}

/// The rows that `pred` holds of, in the order of the table.
pub open spec fn select(rows: Seq<JobView>, pred: spec_fn(JobView) -> bool) -> Seq<JobView>
    decreases rows.len(),
{
    if rows.len() == 0 {
        rows
    } else {
        let rest = select(rows.drop_last(), pred);
        if pred(rows.last()) {
            rest.push(rows.last())
        } else {
            rest
        }
    }
}

/// The table without the jobs that wait in the queue.
pub open spec fn after_cancel(rows: Seq<JobView>) -> Seq<JobView> {
    select(rows, |r: JobView| !queued(r))
}

// ---------------------------------------------------------------------------
// Counting
// ---------------------------------------------------------------------------

/// No more jobs wait than the table holds.
pub proof fn lemma_queue_len_bound(rows: Seq<JobView>)
    ensures
        queue_len(rows) <= rows.len(),
    decreases rows.len(),
{
    if rows.len() > 0 {
        lemma_queue_len_bound(rows.drop_last());
    }
}

/// Two tables in which the same rows wait have queues of the same length.
pub proof fn lemma_queue_len_same(a: Seq<JobView>, b: Seq<JobView>)
    requires
        a.len() == b.len(),
        forall|i: int| 0 <= i < a.len() ==> queued(#[trigger] a[i]) == queued(b[i]),
    ensures
        queue_len(a) == queue_len(b),
    decreases a.len(),
{
    if a.len() > 0 {
        let a0 = a.drop_last();
        let b0 = b.drop_last();
        assert forall|i: int| 0 <= i < a0.len() implies queued(#[trigger] a0[i]) == queued(
            b0[i],
        ) by {
            assert(a0[i] == a[i]);
        }
        lemma_queue_len_same(a0, b0);
        assert(queued(a.last()) == queued(b.last())) by {
            assert(a.last() == a[a.len() - 1]);
        }
    }
}

/// Taking a row out shortens the queue by one if the row waited.
pub proof fn lemma_queue_len_remove(rows: Seq<JobView>, idx: int)
    requires
        0 <= idx < rows.len(),
    ensures
        queue_len(rows.remove(idx)) + (if queued(rows[idx]) {
            1nat
        } else {
            0nat
        }) == queue_len(rows),
    decreases rows.len(),
{
    if idx == rows.len() - 1 {
        assert(rows.remove(idx) =~= rows.drop_last());
    } else {
        let rest = rows.drop_last();
        lemma_queue_len_remove(rest, idx);
        assert(rows.remove(idx).drop_last() =~= rest.remove(idx));
        assert(rows.remove(idx).last() == rows.last());
    }
}

/// Replacing a row changes the length of the queue by what the row and its
/// replacement count for.
pub proof fn lemma_queue_len_update(rows: Seq<JobView>, idx: int, r: JobView)
    requires
        0 <= idx < rows.len(),
    ensures
        queue_len(rows.update(idx, r)) + (if queued(rows[idx]) {
            1nat
        } else {
            0nat
        }) == queue_len(rows) + (if queued(r) {
            1nat
        } else {
            0nat
        }),
    decreases rows.len(),
{
    if idx == rows.len() - 1 {
        assert(rows.update(idx, r).drop_last() =~= rows.drop_last());
    } else {
        let rest = rows.drop_last();
        lemma_queue_len_update(rest, idx, r);
        assert(rows.update(idx, r).drop_last() =~= rest.update(idx, r));
    }
}

/// Moving positions leaves the length of the queue as it was.
pub proof fn lemma_queue_len_shift(rows: Seq<JobView>, lo: int, hi: int, delta: int)
    ensures
        queue_len(shift_all(rows, lo, hi, delta)) == queue_len(rows),
{
    lemma_queue_len_same(rows, shift_all(rows, lo, hi, delta));
}

/// No waiting job stands behind the greatest position, and with a job
/// waiting, one of them stands there.
pub proof fn lemma_max_position(rows: Seq<JobView>)
    ensures
        forall|i: int| 0 <= i < rows.len() && queued(#[trigger] rows[i]) ==> pos(rows[i])
            <= max_position(rows),
        max_position(rows) >= 0,
        max_position(rows) > 0 ==> exists|i: int|
            0 <= i < rows.len() && queued(#[trigger] rows[i]) && pos(rows[i]) == max_position(
                rows,
            ),
    decreases rows.len(),
{
    if rows.len() > 0 {
        let rest = rows.drop_last();
        lemma_max_position(rest);
        assert forall|i: int| 0 <= i < rows.len() && queued(#[trigger] rows[i]) implies pos(
            rows[i],
        ) <= max_position(rows) by {
            if i < rows.len() - 1 {
                assert(rest[i] == rows[i]);
            }
        }
        if max_position(rows) > 0 {
            if queued(rows.last()) && pos(rows.last()) > max_position(rest) {
                assert(rows[rows.len() - 1] == rows.last());
            } else {
                let i = choose|i: int|
                    0 <= i < rest.len() && queued(#[trigger] rest[i]) && pos(rest[i])
                        == max_position(rest);
                assert(rows[i] == rest[i]);
            }
        }
    }
}

/// The id of a row is greater than its index, so a table is shorter than any
/// bound above its ids.
pub proof fn lemma_len_below_ids(rows: Seq<JobView>, i: int)
    requires
        ids_increase(rows),
        0 <= i < rows.len(),
    ensures
        rows[i].id > i,
    decreases i,
{
    if i > 0 {
        lemma_len_below_ids(rows, i - 1);
    }
}

} // verus!
