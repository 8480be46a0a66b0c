//! The job table and the operations on it.
//!
//! `JobStore` holds the jobs in memory, in the order in which they were
//! inserted. Every operation that changes the order of the queue works on the
//! whole table at once: it either succeeds and leaves a valid table, or fails
//! and leaves the table as it was. Whoever persists the table reads it, calls
//! the operation and writes the table back within one transaction.

use vstd::prelude::*;
use crate::clock::now_rfc3339;
use crate::queue_laws::{
    lemma_cancel_keeps_wf, lemma_delete_keeps_wf, lemma_leave_keeps_wf, lemma_max_le_len,
    lemma_move_to_end_keeps_wf, lemma_move_to_front_keeps_wf, lemma_push_keeps_wf,
    lemma_remove_keeps_wf, lemma_reorder_keeps_wf, lemma_select_keeps, lemma_update_keeps_wf,
};
use crate::queue_spec::{
    after_cancel, after_leave, after_move_to_end, after_move_to_front, after_remove, after_reorder,
    has_id, has_running, ids_increase, index_of, lemma_len_below_ids, lemma_max_position,
    lemma_queue_len_bound, max_position, one_running, placed, pos, positions_dense, queue_len,
    queued, rows_wf, running_index, select, shift_all, shifted,
};
use crate::ordering::{sort_jobs, sorted_by, JobOrder};
use crate::state::{copy_job, job_views, opt_view, Job, JobStatus, JobView};
use crate::text::{opt_str, push_str, string_of};

verus! {

/// What a queue operation was asked to do with a job.
#[derive(Debug, Clone, Copy, PartialEq, Eq, Structural)]
pub enum QueueAction {
    Remove,
    Move,
    Reorder,
}

/// Why an operation on the job table was refused.
#[derive(Debug, Clone, Copy, PartialEq, Eq, Structural)]
pub enum QueueError {
    /// No job has the id.
    NotFound,
    /// The job has no place in the queue.
    NotInQueue,
    /// Only pending jobs can be removed or moved.
    NotPending { action: QueueAction, status: JobStatus },
    /// The position is not one of `1..=queue_len`.
    PositionOutOfRange { position: i64, queue_len: i64 },
    /// Another job is running: only one job runs at a time.
    AlreadyRunning { running_id: i64 },
    /// A job never goes back: not to `Pending`, and not out of a terminal
    /// status.
    InvalidTransition { from: JobStatus, to: JobStatus },
    /// The table cannot take another job: ids are used up.
    StoreFull,
}

/// The job table.
pub struct JobStore {
    rows: Vec<Job>,
    next_id: i64,
}

impl View for JobStore {
    type V = Seq<JobView>;

    closed spec fn view(&self) -> Seq<JobView> {
        job_views(self.rows@)
    }
}

impl JobStore {
    /// The id that the next inserted job gets.
    pub closed spec fn next_id(&self) -> int {
        self.next_id as int
    }

    /// The table is valid, and the next id is greater than every id in it.
    pub open spec fn wf(&self) -> bool {
        &&& rows_wf(self@)
        &&& 1 <= self.next_id()
        &&& forall|i: int| 0 <= i < self@.len() ==> (#[trigger] self@[i]).id < self.next_id()
    }

    /// An empty table.
    pub fn new() -> (store: JobStore)
        ensures
            store.wf(),
            store@ == Seq::<JobView>::empty(),
            store.next_id() == 1,
    {
        let store = JobStore { rows: Vec::new(), next_id: 1 };
        proof {
            assert(store@ =~= Seq::<JobView>::empty());
        }
        store
    }

    /// The jobs of the table, in the order in which they were inserted.
    pub fn rows(&self) -> (rows: &Vec<Job>)
        ensures
            job_views(rows@) == self@,
    {
        &self.rows
    }

    /// The id that the next inserted job gets.
    pub fn next_value(&self) -> (id: i64)
        ensures
            id == self.next_id(),
    {
        self.next_id
    }

    /// The number of jobs in the table.
    pub fn len(&self) -> (n: usize)
        ensures
            n == self@.len(),
    {
        self.rows.len()
    }
}

/// The index of the job with the id.
fn find_row(rows: &Vec<Job>, id: i64) -> (at: Option<usize>)
    requires
        ids_increase(job_views(rows@)),
    ensures
        at is Some == has_id(job_views(rows@), id),
        at is Some ==> at->0 == index_of(job_views(rows@), id) && at->0 < rows.len()
            && rows[at->0 as int].id == id,
{
    let ghost views = job_views(rows@);
    let mut i: usize = 0;
    while i < rows.len()
        invariant
            i <= rows.len(),
            views == job_views(rows@),
            ids_increase(views),
            forall|j: int| 0 <= j < i ==> (#[trigger] views[j]).id != id,
        decreases rows.len() - i,
    {
        if rows[i].id == id {
            proof {
                assert(views[i as int].id == id);
                let c = index_of(views, id);
                assert(views[c].id == id);
                if c < i {
                    assert(views[c].id < views[i as int].id);
                }
                if i < c {
                    assert(views[i as int].id < views[c].id);
                }
            }
            return Some(i);
        }
        i += 1;
    }
    None
}

/// The index of the running job.
fn find_running(rows: &Vec<Job>) -> (at: Option<usize>)
    requires
        one_running(job_views(rows@)),
    ensures
        at is Some == has_running(job_views(rows@)),
        at is Some ==> at->0 == running_index(job_views(rows@)) && at->0 < rows.len()
            && rows[at->0 as int].status == JobStatus::Running,
{
    let ghost views = job_views(rows@);
    let mut i: usize = 0;
    while i < rows.len()
        invariant
            i <= rows.len(),
            views == job_views(rows@),
            one_running(views),
            forall|j: int| 0 <= j < i ==> (#[trigger] views[j]).status != JobStatus::Running,
        decreases rows.len() - i,
    {
        if rows[i].status == JobStatus::Running {
            proof {
                assert(views[i as int].status == JobStatus::Running);
                let c = running_index(views);
                assert(views[c].status == JobStatus::Running);
            }
            return Some(i);
        }
        i += 1;
    }
    None
}

/// Whether the job waits in the queue.
fn is_queued(job: &Job) -> (b: bool)
    ensures
        b == queued(job@),
{
    job.status == JobStatus::Pending && job.queue_position.is_some()
}

/// Moves every waiting job at a position in `lo..=hi` by one: back when `up`
/// holds, forward when it does not.
fn shift_range(rows: &mut Vec<Job>, lo: i64, hi: i64, up: bool)
    requires
        forall|i: int|
            0 <= i < old(rows).len() && queued(#[trigger] old(rows)[i]@) && lo <= pos(
                old(rows)[i]@,
            ) <= hi ==> i64::MIN < pos(old(rows)[i]@) < i64::MAX,
    ensures
        job_views(final(rows)@) == shift_all(
            job_views(old(rows)@),
            lo as int,
            hi as int,
            if up {
                1
            } else {
                -1
            },
        ),
{
    let ghost delta: int = if up {
        1
    } else {
        -1
    };
    let mut i: usize = 0;
    while i < rows.len()
        invariant
            i <= rows.len(),
            rows.len() == old(rows).len(),
            delta == (if up {
                1int
            } else {
                -1int
            }),
            forall|j: int|
                0 <= j < i ==> (#[trigger] rows[j])@ == shifted(
                    old(rows)[j]@,
                    lo as int,
                    hi as int,
                    delta,
                ),
            forall|j: int| i <= j < rows.len() ==> (#[trigger] rows[j])@ == old(rows)[j]@,
            forall|k: int|
                0 <= k < old(rows).len() && queued(#[trigger] old(rows)[k]@) && lo <= pos(
                    old(rows)[k]@,
                ) <= hi ==> i64::MIN < pos(old(rows)[k]@) < i64::MAX,
        decreases rows.len() - i,
    {
        if is_queued(&rows[i]) {
            let p: i64 = rows[i].queue_position.unwrap();
            if lo <= p && p <= hi {
                let ghost before = rows@;
                assert(queued(old(rows)[i as int]@));
                let q: i64 = if up {
                    p + 1
                } else {
                    p - 1
                };
                rows[i].queue_position = Some(q);
                proof {
                    assert forall|j: int| 0 <= j < i implies (#[trigger] rows[j])@ == shifted(
                        old(rows)[j]@,
                        lo as int,
                        hi as int,
                        delta,
                    ) by {
                        assert(rows[j] == before[j]);
                    }
                    assert forall|j: int| i < j < rows.len() implies (#[trigger] rows[j])@ == old(
                        rows,
                    )[j]@ by {
                        assert(rows[j] == before[j]);
                    }
                }
            }
        }
        i += 1;
    }
    proof {
        assert(job_views(rows@) =~= shift_all(
            job_views(old(rows)@),
            lo as int,
            hi as int,
            delta,
        ));
    }
}

/// The job that a removal is about: its index, or why the removal is refused.
pub open spec fn removal_target(rows: Seq<JobView>, id: i64) -> Result<int, QueueError> {
    if !has_id(rows, id) || rows[index_of(rows, id)].queue_position is None {
        Err(QueueError::NotInQueue)
    } else if rows[index_of(rows, id)].status != JobStatus::Pending {
        Err(
            QueueError::NotPending {
                action: QueueAction::Remove,
                status: rows[index_of(rows, id)].status,
            },
        )
    } else {
        Ok(index_of(rows, id))
    }
}

/// The job that a move is about: its index, or why the move is refused.
pub open spec fn move_target(rows: Seq<JobView>, id: i64, action: QueueAction) -> Result<
    int,
    QueueError,
> {
    if !has_id(rows, id) {
        Err(QueueError::NotFound)
    } else if rows[index_of(rows, id)].status != JobStatus::Pending {
        Err(QueueError::NotPending { action, status: rows[index_of(rows, id)].status })
    } else if rows[index_of(rows, id)].queue_position is None {
        Err(QueueError::NotInQueue)
    } else {
        Ok(index_of(rows, id))
    }
}

fn locate_for_move(store: &JobStore, job_id: i64, action: QueueAction) -> (r: Result<
    usize,
    QueueError,
>)
    requires
        store.wf(),
    ensures
        match (r, move_target(store@, job_id, action)) {
            (Ok(idx), Ok(at)) => idx == at && idx < store@.len() && queued(store@[at]),
            (Err(e), Err(f)) => e == f,
            _ => false,
        },
{
    match find_row(&store.rows, job_id) {
        None => Err(QueueError::NotFound),
        Some(idx) => {
            assert(store@[idx as int] == store.rows[idx as int]@);
            if store.rows[idx].status != JobStatus::Pending {
                Err(QueueError::NotPending { action, status: store.rows[idx].status })
            } else if store.rows[idx].queue_position.is_none() {
                Err(QueueError::NotInQueue)
            } else {
                Ok(idx)
            }
        },
    }
}

/// Removes a pending job from the queue and moves the jobs behind it up by
/// one. Refused, with the table left as it was, when the job is not in the
/// queue or is not pending.
pub fn remove_job_from_queue(store: &mut JobStore, job_id: i64) -> (r: Result<(), QueueError>)
    requires
        old(store).wf(),
    ensures
        final(store).wf(),
        final(store).next_id() == old(store).next_id(),
        match (r, removal_target(old(store)@, job_id)) {
            (Ok(()), Ok(idx)) => final(store)@ == after_remove(old(store)@, idx),
            (Err(e), Err(f)) => e == f && final(store)@ == old(store)@,
            _ => false,
        },
{
    let idx = match find_row(&store.rows, job_id) {
        None => {
            return Err(QueueError::NotInQueue);
        },
        Some(idx) => idx,
    };
    assert(store@[idx as int] == store.rows[idx as int]@);
    if store.rows[idx].queue_position.is_none() {
        return Err(QueueError::NotInQueue);
    }
    if store.rows[idx].status != JobStatus::Pending {
        return Err(
            QueueError::NotPending { action: QueueAction::Remove, status: store.rows[idx].status },
        );
    }
    let p: i64 = store.rows[idx].queue_position.unwrap();
    let ghost before = store@;
    proof {
        lemma_remove_keeps_wf(before, idx as int);
    }
    let _ = store.rows.remove(idx);
    proof {
        assert(job_views(store.rows@) =~= before.remove(idx as int));
        assert forall|i: int|
            0 <= i < store.rows.len() && queued(#[trigger] store.rows[i]@) && p + 1 <= pos(
                store.rows[i]@,
            ) <= i64::MAX implies i64::MIN < pos(store.rows[i]@) < i64::MAX by {
            lemma_queue_len_bound(before);
            let o = if i < idx { i } else { i + 1 };
            assert(store.rows[i]@ == before[o]);
            lemma_len_below_ids(before, before.len() - 1);
        }
    }
    if p < i64::MAX {
        shift_range(&mut store.rows, p + 1, i64::MAX, false);
    } else {
        proof {
            assert(job_views(store.rows@) =~= after_remove(before, idx as int));
        }
    }
    proof {
        assert forall|i: int| 0 <= i < store@.len() implies (#[trigger] store@[i]).id
            < store.next_id() by {
            let o = if i < idx { i } else { i + 1 };
            assert(store@[i].id == before[o].id);
        }
    }
    Ok(())
}

/// The greatest position of a waiting job; 0 when none waits.
fn max_of(rows: &Vec<Job>) -> (m: i64)
    ensures
        m == max_position(job_views(rows@)),
{
    let ghost views = job_views(rows@);
    let mut m: i64 = 0;
    let mut i: usize = 0;
    while i < rows.len()
        invariant
            i <= rows.len(),
            views == job_views(rows@),
            m == max_position(views.take(i as int)),
        decreases rows.len() - i,
    {
        proof {
            assert(views.take(i + 1).drop_last() =~= views.take(i as int));
            assert(views.take(i + 1).last() == rows[i as int]@);
        }
        if is_queued(&rows[i]) {
            let p: i64 = rows[i].queue_position.unwrap();
            if p > m {
                m = p;
            }
        }
        i += 1;
    }
    proof {
        assert(views.take(i as int) =~= views);
    }
    m
}

/// The greatest queue position in use: that of the last waiting job, 0 when
/// the queue is empty.
pub fn get_max_queue_position(store: &JobStore) -> (m: i64)
    ensures
        m == max_position(store@),
{
    max_of(&store.rows)
}

/// Puts the job at `idx` at position `p`.
fn place(rows: &mut Vec<Job>, idx: usize, p: i64)
    requires
        idx < old(rows).len(),
    ensures
        job_views(final(rows)@) == job_views(old(rows)@).update(
            idx as int,
            placed(old(rows)[idx as int]@, p as int),
        ),
{
    rows[idx].queue_position = Some(p);
    proof {
        assert(job_views(rows@) =~= job_views(old(rows)@).update(
            idx as int,
            placed(old(rows)[idx as int]@, p as int),
        ));
    }
}

/// Moves a pending job to position 1; the jobs that stood before it move
/// back by one. Refused, with the table left as it was, when no job has the
/// id, when the job is not pending or when it is not in the queue.
pub fn move_job_to_front(store: &mut JobStore, job_id: i64) -> (r: Result<(), QueueError>)
    requires
        old(store).wf(),
    ensures
        final(store).wf(),
        final(store).next_id() == old(store).next_id(),
        match (r, move_target(old(store)@, job_id, QueueAction::Move)) {
            (Ok(()), Ok(idx)) => final(store)@ == after_move_to_front(old(store)@, idx),
            (Err(e), Err(f)) => e == f && final(store)@ == old(store)@,
            _ => false,
        },
{
    let idx = match locate_for_move(store, job_id, QueueAction::Move) {
        Err(e) => {
            return Err(e);
        },
        Ok(idx) => idx,
    };
    let ghost before = store@;
    assert(before[idx as int] == store.rows[idx as int]@);
    let p: i64 = store.rows[idx].queue_position.unwrap();
    proof {
        lemma_move_to_front_keeps_wf(before, idx as int);
        assert forall|i: int|
            0 <= i < store.rows.len() && queued(#[trigger] store.rows[i]@) && i64::MIN <= pos(
                store.rows[i]@,
            ) <= p - 1 implies i64::MIN < pos(store.rows[i]@) < i64::MAX by {
            assert(queued(before[i]));
        }
    }
    shift_range(&mut store.rows, i64::MIN, p - 1, true);
    let ghost mid = store.rows@;
    assert(mid[idx as int]@ == before[idx as int]) by {
        assert(job_views(mid)[idx as int] == shifted(before[idx as int], i64::MIN as int, p - 1, 1));
    }
    place(&mut store.rows, idx, 1);
    proof {
        assert(store@ =~= after_move_to_front(before, idx as int));
        assert forall|i: int| 0 <= i < store@.len() implies (#[trigger] store@[i]).id
            < store.next_id() by {
            assert(store@[i].id == before[i].id);
        }
    }
    Ok(())
}

/// Moves a pending job to the last position of the queue; the jobs that stood
/// behind it move up by one. Refused, with the table left as it was, when no
/// job has the id, when the job is not pending or when it is not in the queue.
pub fn move_job_to_end(store: &mut JobStore, job_id: i64) -> (r: Result<(), QueueError>)
    requires
        old(store).wf(),
    ensures
        final(store).wf(),
        final(store).next_id() == old(store).next_id(),
        match (r, move_target(old(store)@, job_id, QueueAction::Move)) {
            (Ok(()), Ok(idx)) => final(store)@ == after_move_to_end(old(store)@, idx),
            (Err(e), Err(f)) => e == f && final(store)@ == old(store)@,
            _ => false,
        },
{
    let idx = match locate_for_move(store, job_id, QueueAction::Move) {
        Err(e) => {
            return Err(e);
        },
        Ok(idx) => idx,
    };
    let ghost before = store@;
    assert(before[idx as int] == store.rows[idx as int]@);
    let p: i64 = store.rows[idx].queue_position.unwrap();
    let m: i64 = max_of(&store.rows);
    proof {
        lemma_move_to_end_keeps_wf(before, idx as int);
        lemma_max_position(before);
        assert forall|i: int|
            0 <= i < store.rows.len() && queued(#[trigger] store.rows[i]@) && p + 1 <= pos(
                store.rows[i]@,
            ) <= i64::MAX implies i64::MIN < pos(store.rows[i]@) < i64::MAX by {
            assert(queued(before[i]));
            lemma_queue_len_bound(before);
            lemma_len_below_ids(before, before.len() - 1);
        }
    }
    if p < i64::MAX {
        shift_range(&mut store.rows, p + 1, i64::MAX, false);
    } else {
        proof {
            assert(job_views(store.rows@) =~= shift_all(before, p + 1, i64::MAX as int, -1));
        }
    }
    let ghost mid = store.rows@;
    assert(mid[idx as int]@ == before[idx as int]) by {
        assert(job_views(mid)[idx as int] == shifted(
            before[idx as int],
            p + 1,
            i64::MAX as int,
            -1,
        ));
    }
    place(&mut store.rows, idx, m);
    proof {
        assert(store@ =~= after_move_to_end(before, idx as int));
        assert forall|i: int| 0 <= i < store@.len() implies (#[trigger] store@[i]).id
            < store.next_id() by {
            assert(store@[i].id == before[i].id);
        }
    }
    Ok(())
}

/// What a reordering is about: the index of the job, or why the reordering is
/// refused.
pub open spec fn reorder_target(rows: Seq<JobView>, id: i64, to: int) -> Result<int, QueueError> {
    match move_target(rows, id, QueueAction::Reorder) {
        Err(e) => Err(e),
        Ok(idx) => if 1 <= to <= max_position(rows) {
            Ok(idx)
        } else {
            Err(
                QueueError::PositionOutOfRange {
                    position: to as i64,
                    queue_len: max_position(rows) as i64,
                },
            )
        },
    }
}

/// Moves a pending job to `new_position`. Moving it forward, the jobs from
/// `new_position` up to the one before it move back by one; moving it back,
/// the jobs behind it up to `new_position` move up by one. Refused, with the
/// table left as it was, when no job has the id, when the job is not pending
/// or not in the queue, or when `new_position` is not a position of the
/// queue.
pub fn reorder_queue_job(store: &mut JobStore, job_id: i64, new_position: i32) -> (r: Result<
    (),
    QueueError,
>)
    requires
        old(store).wf(),
    ensures
        final(store).wf(),
        final(store).next_id() == old(store).next_id(),
        match (r, reorder_target(old(store)@, job_id, new_position as int)) {
            (Ok(()), Ok(idx)) => final(store)@ == after_reorder(
                old(store)@,
                idx,
                new_position as int,
            ),
            (Err(e), Err(f)) => e == f && final(store)@ == old(store)@,
            _ => false,
        },
{
    let idx = match locate_for_move(store, job_id, QueueAction::Reorder) {
        Err(e) => {
            return Err(e);
        },
        Ok(idx) => idx,
    };
    let ghost before = store@;
    assert(before[idx as int] == store.rows[idx as int]@);
    let to: i64 = new_position as i64;
    let m: i64 = max_of(&store.rows);
    if to < 1 || to > m {
        return Err(QueueError::PositionOutOfRange { position: to, queue_len: m });
    }
    let p: i64 = store.rows[idx].queue_position.unwrap();
    proof {
        lemma_max_le_len(before);
        lemma_reorder_keeps_wf(before, idx as int, to as int);
    }
    if to < p {
        shift_range(&mut store.rows, to, p - 1, true);
    } else if p < to {
        shift_range(&mut store.rows, p + 1, to, false);
    } else {
        proof {
            assert(job_views(store.rows@) =~= shift_all(before, p + 1, to as int, -1));
        }
    }
    let ghost mid = store.rows@;
    assert(mid[idx as int]@ == before[idx as int]) by {
        if to < p {
            assert(job_views(mid)[idx as int] == shifted(before[idx as int], to as int, p - 1, 1));
        } else {
            assert(job_views(mid)[idx as int] == shifted(
                before[idx as int],
                p + 1,
                to as int,
                -1,
            ));
        }
    }
    place(&mut store.rows, idx, to);
    proof {
        assert(store@ =~= after_reorder(before, idx as int, to as int));
        assert forall|i: int| 0 <= i < store@.len() implies (#[trigger] store@[i]).id
            < store.next_id() by {
            assert(store@[i].id == before[i].id);
        }
    }
    Ok(())
}

/// Deletes every job that waits in the queue and returns how many there
/// were. Running and finished jobs, and pending jobs outside the queue, stay.
pub fn cancel_all_pending_jobs(store: &mut JobStore) -> (count: usize)
    requires
        old(store).wf(),
    ensures
        final(store).wf(),
        final(store).next_id() == old(store).next_id(),
        final(store)@ == after_cancel(old(store)@),
        count == queue_len(old(store)@),
        count + final(store)@.len() == old(store)@.len(),
{
    let ghost before = store@;
    let mut kept: Vec<Job> = Vec::new();
    let mut count: usize = 0;
    let mut i: usize = 0;
    while i < store.rows.len()
        invariant
            i <= store.rows.len(),
            before == job_views(store.rows@),
            job_views(kept@) == after_cancel(before.take(i as int)),
            count == queue_len(before.take(i as int)),
            count + kept.len() == i,
        decreases store.rows.len() - i,
    {
        proof {
            assert(before.take(i + 1).drop_last() =~= before.take(i as int));
            assert(before.take(i + 1).last() == store.rows[i as int]@);
        }
        if is_queued(&store.rows[i]) {
            count += 1;
        } else {
            let ghost k0 = job_views(kept@);
            let job = copy_job(&store.rows[i]);
            kept.push(job);
            proof {
                assert(job_views(kept@) =~= k0.push(store.rows[i as int]@));
            }
        }
        i += 1;
    }
    proof {
        assert(before.take(i as int) =~= before);
        lemma_cancel_keeps_wf(before);
        lemma_select_keeps(before, |r: JobView| !queued(r));
    }
    store.rows = kept;
    proof {
        assert forall|k: int| 0 <= k < store@.len() implies (#[trigger] store@[k]).id
            < store.next_id() by {
            let j = choose|j: int| k <= j < before.len() && before[j] == after_cancel(before)[k];
            assert(before[j].id < store.next_id());
        }
    }
    count
}

// ---------------------------------------------------------------------------
// Inserting
// ---------------------------------------------------------------------------

/// A job as it is when it has just been inserted: pending, without progress,
/// result, error or log.
pub open spec fn fresh_job(
    id: i64,
    project_id: i64,
    name: Seq<char>,
    now: Seq<char>,
    position: Option<i64>,
    queued_at: Option<Seq<char>>,
) -> JobView {
    JobView {
        id,
        project_id: Some(project_id),
        benchmark_name: name,
        status: JobStatus::Pending,
        created_at: now,
        started_at: None,
        finished_at: None,
        progress_current: 0,
        progress_total: 0,
        results_path: None,
        error_message: None,
        log_content: Seq::empty(),
        queue_position: position,
        queued_at,
    }
}

pub(crate) fn make_job(
    id: i64,
    project_id: i64,
    name: &str,
    now: &str,
    position: Option<i64>,
    queued_at: Option<String>,
) -> (job: Job)
    ensures
        job@ == fresh_job(id, project_id, name@, now@, position, opt_view(queued_at)),
{
    Job {
        id,
        project_id: Some(project_id),
        benchmark_name: name.to_owned(),
        status: JobStatus::Pending,
        created_at: now.to_owned(),
        started_at: None,
        finished_at: None,
        progress_current: 0,
        progress_total: 0,
        results_path: None,
        error_message: None,
        log_content: String::new(),
        queue_position: position,
        queued_at,
    }
}

/// Appends `job`, whose id is the next id of the table.
pub(crate) fn append(store: &mut JobStore, job: Job)
    requires
        old(store).wf(),
        old(store).next_id() < i64::MAX,
        job.id == old(store).next_id(),
        job.status == JobStatus::Pending,
        job.queue_position is Some ==> pos(job@) == max_position(old(store)@) + 1,
    ensures
        final(store).wf(),
        final(store)@ == old(store)@.push(job@),
        final(store).next_id() == old(store).next_id() + 1,
        max_position(final(store)@) == (if job.queue_position is Some {
            pos(job@)
        } else {
            max_position(old(store)@)
        }),
{
    let ghost before = store@;
    let ghost view = job@;
    proof {
        lemma_push_keeps_wf(before, view);
    }
    store.rows.push(job);
    store.next_id = store.next_id + 1;
    proof {
        assert(store@ =~= before.push(view));
    }
}

/// Inserts a pending job outside the queue, created at `now`, and returns its
/// id. Refused only when the ids are used up.
pub fn insert_job_at(store: &mut JobStore, project_id: i64, benchmark_name: &str, now: &str) -> (r:
    Result<i64, QueueError>)
    requires
        old(store).wf(),
    ensures
        final(store).wf(),
        match r {
            Ok(id) => {
                &&& old(store).next_id() < i64::MAX
                &&& id == old(store).next_id()
                &&& final(store).next_id() == id + 1
                &&& final(store)@ == old(store)@.push(
                    fresh_job(id, project_id, benchmark_name@, now@, None, None),
                )
            },
            Err(e) => {
                &&& old(store).next_id() == i64::MAX
                &&& e == QueueError::StoreFull
                &&& final(store)@ == old(store)@
                &&& final(store).next_id() == old(store).next_id()
            },
        },
{
    if store.next_id == i64::MAX {
        return Err(QueueError::StoreFull);
    }
    let id = store.next_id;
    let job = make_job(id, project_id, benchmark_name, now, None, None);
    append(store, job);
    Ok(id)
}

/// Inserts a pending job outside the queue, created now, and returns its id.
/// Refused only when the ids are used up.
pub fn insert_job(store: &mut JobStore, project_id: i64, benchmark_name: &str) -> (r: Result<
    i64,
    QueueError,
>)
    requires
        old(store).wf(),
    ensures
        final(store).wf(),
        match r {
            Ok(id) => {
                &&& old(store).next_id() < i64::MAX
                &&& id == old(store).next_id()
                &&& final(store).next_id() == id + 1
                &&& final(store)@.len() == old(store)@.len() + 1
                &&& final(store)@ == old(store)@.push(
                    fresh_job(
                        id,
                        project_id,
                        benchmark_name@,
                        final(store)@.last().created_at,
                        None,
                        None,
                    ),
                )
            },
            Err(e) => {
                &&& old(store).next_id() == i64::MAX
                &&& e == QueueError::StoreFull
                &&& final(store)@ == old(store)@
                &&& final(store).next_id() == old(store).next_id()
            },
        },
{
    let now = now_rfc3339();
    insert_job_at(store, project_id, benchmark_name, now.as_str())
}

/// Whether a job may be inserted at the position: never when the ids are
/// used up, and only right behind the last waiting job.
pub open spec fn insertion_refusal(store: &JobStore, position: i64) -> Option<QueueError> {
    if store.next_id() == i64::MAX {
        Some(QueueError::StoreFull)
    } else if position != max_position(store@) + 1 {
        Some(
            QueueError::PositionOutOfRange {
                position,
                queue_len: max_position(store@) as i64,
            },
        )
    } else {
        None
    }
}

/// Inserts a pending job at the end of the queue, created at `now` and
/// queued at `queued_at`, and returns its id. `queue_position` has to be the
/// position right behind the last waiting job.
pub fn insert_job_with_queue_at(
    store: &mut JobStore,
    project_id: i64,
    benchmark_name: &str,
    queue_position: i64,
    queued_at: &str,
    now: &str,
) -> (r: Result<i64, QueueError>)
    requires
        old(store).wf(),
    ensures
        final(store).wf(),
        match (r, insertion_refusal(old(store), queue_position)) {
            (Ok(id), None) => {
                &&& id == old(store).next_id()
                &&& final(store).next_id() == id + 1
                &&& final(store)@ == old(store)@.push(
                    fresh_job(
                        id,
                        project_id,
                        benchmark_name@,
                        now@,
                        Some(queue_position),
                        Some(queued_at@),
                    ),
                )
            },
            (Err(e), Some(f)) => {
                &&& e == f
                &&& final(store)@ == old(store)@
                &&& final(store).next_id() == old(store).next_id()
            },
            _ => false,
        },
{
    if store.next_id == i64::MAX {
        return Err(QueueError::StoreFull);
    }
    let m: i64 = max_of(&store.rows);
    proof {
        lemma_max_le_len(store@);
        lemma_queue_len_bound(store@);
        if store@.len() > 0 {
            lemma_len_below_ids(store@, store@.len() - 1);
        }
    }
    if queue_position != m + 1 {
        return Err(QueueError::PositionOutOfRange { position: queue_position, queue_len: m });
    }
    let id = store.next_id;
    let job = make_job(
        id,
        project_id,
        benchmark_name,
        now,
        Some(queue_position),
        Some(queued_at.to_owned()),
    );
    append(store, job);
    Ok(id)
}

/// Inserts a pending job at the end of the queue, created now and queued at
/// `queued_at`, and returns its id. `queue_position` has to be the position
/// right behind the last waiting job.
pub fn insert_job_with_queue(
    store: &mut JobStore,
    project_id: i64,
    benchmark_name: &str,
    queue_position: i64,
    queued_at: &str,
) -> (r: Result<i64, QueueError>)
    requires
        old(store).wf(),
    ensures
        final(store).wf(),
        match (r, insertion_refusal(old(store), queue_position)) {
            (Ok(id), None) => {
                &&& id == old(store).next_id()
                &&& final(store).next_id() == id + 1
                &&& final(store)@.len() == old(store)@.len() + 1
                &&& final(store)@ == old(store)@.push(
                    fresh_job(
                        id,
                        project_id,
                        benchmark_name@,
                        final(store)@.last().created_at,
                        Some(queue_position),
                        Some(queued_at@),
                    ),
                )
            },
            (Err(e), Some(f)) => {
                &&& e == f
                &&& final(store)@ == old(store)@
                &&& final(store).next_id() == old(store).next_id()
            },
            _ => false,
        },
{
    let now = now_rfc3339();
    insert_job_with_queue_at(
        store,
        project_id,
        benchmark_name,
        queue_position,
        queued_at,
        now.as_str(),
    )
}

// ---------------------------------------------------------------------------
// Changing a job
// ---------------------------------------------------------------------------

/// The job once it has taken `status` at the time `now`: a job that starts
/// to run gets its start time, a job that ends gets its end time.
pub open spec fn with_status(r: JobView, status: JobStatus, now: Seq<char>) -> JobView {
    JobView {
        status,
        started_at: if status == JobStatus::Running {
            Some(now)
        } else {
            r.started_at
        },
        finished_at: if status.terminal() {
            Some(now)
        } else {
            r.finished_at
        },
        ..r
    }
}

/// What a change of status is about: the index of the job, nothing when no
/// job has the id, or why the change is refused.
pub open spec fn status_target(rows: Seq<JobView>, id: i64, status: JobStatus) -> Result<
    Option<int>,
    QueueError,
> {
    if !has_id(rows, id) {
        Ok(None)
    } else if !rows[index_of(rows, id)].status.may_become(status) {
        Err(QueueError::InvalidTransition { from: rows[index_of(rows, id)].status, to: status })
    } else if status == JobStatus::Running && has_running(rows) {
        Err(QueueError::AlreadyRunning { running_id: rows[running_index(rows)].id })
    } else {
        Ok(Some(index_of(rows, id)))
    }
}

/// Only one job runs: a job is given the status `Running` only while no
/// job runs, and a refusal for that reason names the job that does.
pub proof fn lemma_one_job_runs(rows: Seq<JobView>, id: i64)
    requires
        has_id(rows, id),
        has_running(rows),
    ensures
        status_target(rows, id, JobStatus::Running) is Err,
        rows[index_of(rows, id)].status == JobStatus::Pending ==> status_target(
            rows,
            id,
            JobStatus::Running,
        ) == Err::<Option<int>, QueueError>(
            QueueError::AlreadyRunning { running_id: rows[running_index(rows)].id },
        ),
{
}

/// A job never comes back to `Pending`, and a job that is over stays as it
/// is: such changes of status are refused.
pub proof fn lemma_no_way_back(rows: Seq<JobView>, id: i64, status: JobStatus)
    requires
        has_id(rows, id),
        status == JobStatus::Pending || rows[index_of(rows, id)].status.terminal(),
    ensures
        status_target(rows, id, status) == Err::<Option<int>, QueueError>(
            QueueError::InvalidTransition { from: rows[index_of(rows, id)].status, to: status },
        ),
{
}

/// Gives a job a new status at the time `now`. A job that leaves the queue
/// frees its position: the jobs behind it move up by one. Its own position
/// stays with it as a record. Refused, with the table left as it was, when
/// the job would go back in its life, or when it is to run while another job
/// runs. Without a job of that id nothing happens.
pub fn update_job_status_at(store: &mut JobStore, job_id: i64, status: JobStatus, now: &str) -> (r:
    Result<(), QueueError>)
    requires
        old(store).wf(),
    ensures
        final(store).wf(),
        final(store).next_id() == old(store).next_id(),
        match (r, status_target(old(store)@, job_id, status)) {
            (Ok(()), Ok(Some(idx))) => final(store)@ == after_leave(
                old(store)@,
                idx,
                with_status(old(store)@[idx], status, now@),
            ),
            (Ok(()), Ok(None)) => final(store)@ == old(store)@,
            (Err(e), Err(f)) => e == f && final(store)@ == old(store)@,
            _ => false,
        },
{
    let idx = match find_row(&store.rows, job_id) {
        None => {
            return Ok(());
        },
        Some(idx) => idx,
    };
    let ghost before = store@;
    assert(before[idx as int] == store.rows[idx as int]@);
    let from = store.rows[idx].status;
    if !from.can_become(status) {
        return Err(QueueError::InvalidTransition { from, to: status });
    }
    if status == JobStatus::Running {
        match find_running(&store.rows) {
            Some(at) => {
                assert(before[at as int] == store.rows[at as int]@);
                return Err(QueueError::AlreadyRunning { running_id: store.rows[at].id });
            },
            None => {},
        }
    }
    let was_queued = is_queued(&store.rows[idx]);
    let p: i64 = match store.rows[idx].queue_position {
        Some(p) => p,
        None => 0,
    };
    let ghost next = with_status(before[idx as int], status, now@);
    proof {
        lemma_leave_keeps_wf(before, idx as int, next);
    }
    store.rows[idx].status = status;
    if status == JobStatus::Running {
        store.rows[idx].started_at = Some(now.to_owned());
    }
    if status.is_terminal() {
        store.rows[idx].finished_at = Some(now.to_owned());
    }
    proof {
        assert(store.rows[idx as int]@ == next);
        assert(job_views(store.rows@) =~= before.update(idx as int, next));
    }
    if was_queued && p < i64::MAX {
        proof {
            assert forall|i: int|
                0 <= i < store.rows.len() && queued(#[trigger] store.rows[i]@) && p + 1 <= pos(
                    store.rows[i]@,
                ) <= i64::MAX implies i64::MIN < pos(store.rows[i]@) < i64::MAX by {
                assert(queued(before[i]));
                lemma_queue_len_bound(before);
                lemma_len_below_ids(before, before.len() - 1);
            }
        }
        shift_range(&mut store.rows, p + 1, i64::MAX, false);
    } else if was_queued {
        proof {
            assert(job_views(store.rows@) =~= after_leave(before, idx as int, next));
        }
    }
    proof {
        assert forall|i: int| 0 <= i < store@.len() implies (#[trigger] store@[i]).id
            < store.next_id() by {
            assert(store@[i].id == before[i].id);
        }
    }
    Ok(())
}

/// Gives a job a new status now. See `update_job_status_at`: this is the
/// same with the time read from the clock.
pub fn update_job_status(store: &mut JobStore, job_id: i64, status: JobStatus) -> (r: Result<
    (),
    QueueError,
>)
    requires
        old(store).wf(),
    ensures
        final(store).wf(),
        final(store).next_id() == old(store).next_id(),
        match (r, status_target(old(store)@, job_id, status)) {
            (Ok(()), Ok(Some(idx))) => exists|now: Seq<char>|
                final(store)@ == after_leave(
                    old(store)@,
                    idx,
                    #[trigger] with_status(old(store)@[idx], status, now),
                ),
            (Ok(()), Ok(None)) => final(store)@ == old(store)@,
            (Err(e), Err(f)) => e == f && final(store)@ == old(store)@,
            _ => false,
        },
{
    let now = now_rfc3339();
    update_job_status_at(store, job_id, status, now.as_str())
}

/// The table with `next` in place of the job with the id; the table as it is
/// when no job has the id.
pub open spec fn with_row(rows: Seq<JobView>, id: i64, next: JobView) -> Seq<JobView> {
    if has_id(rows, id) {
        rows.update(index_of(rows, id), next)
    } else {
        rows
    }
}

/// The job with the id, where there is one; any job otherwise.
pub open spec fn row_of(rows: Seq<JobView>, id: i64) -> JobView {
    rows[index_of(rows, id)]
}

/// Records how far a job has come. Without a job of that id nothing happens.
pub fn update_job_progress(store: &mut JobStore, job_id: i64, current: u32, total: u32)
    requires
        old(store).wf(),
    ensures
        final(store).wf(),
        final(store).next_id() == old(store).next_id(),
        final(store)@ == with_row(
            old(store)@,
            job_id,
            JobView {
                progress_current: current,
                progress_total: total,
                ..row_of(old(store)@, job_id)
            },
        ),
{
    match find_row(&store.rows, job_id) {
        None => {},
        Some(idx) => {
            let ghost before = store@;
            assert(before[idx as int] == store.rows[idx as int]@);
            let ghost next = JobView {
                progress_current: current,
                progress_total: total,
                ..before[idx as int]
            };
            store.rows[idx].progress_current = current;
            store.rows[idx].progress_total = total;
            proof {
                assert(store@ =~= before.update(idx as int, next));
                lemma_update_keeps_wf(before, idx as int, next);
                assert forall|i: int| 0 <= i < store@.len() implies (#[trigger] store@[i]).id
                    < store.next_id() by {
                    assert(store@[i].id == before[i].id);
                }
            }
        },
    }
}

/// Records the log of a job. Without a job of that id nothing happens.
pub fn update_job_logs(store: &mut JobStore, job_id: i64, logs: &str)
    requires
        old(store).wf(),
    ensures
        final(store).wf(),
        final(store).next_id() == old(store).next_id(),
        final(store)@ == with_row(
            old(store)@,
            job_id,
            JobView { log_content: logs@, ..row_of(old(store)@, job_id) },
        ),
{
    match find_row(&store.rows, job_id) {
        None => {},
        Some(idx) => {
            let ghost before = store@;
            assert(before[idx as int] == store.rows[idx as int]@);
            let ghost next = JobView { log_content: logs@, ..before[idx as int] };
            store.rows[idx].log_content = logs.to_owned();
            proof {
                assert(store@ =~= before.update(idx as int, next));
                lemma_update_keeps_wf(before, idx as int, next);
                assert forall|i: int| 0 <= i < store@.len() implies (#[trigger] store@[i]).id
                    < store.next_id() by {
                    assert(store@[i].id == before[i].id);
                }
            }
        },
    }
}

/// Records the error of a job. Without a job of that id nothing happens.
pub fn update_job_error(store: &mut JobStore, job_id: i64, error: &str)
    requires
        old(store).wf(),
    ensures
        final(store).wf(),
        final(store).next_id() == old(store).next_id(),
        final(store)@ == with_row(
            old(store)@,
            job_id,
            JobView { error_message: Some(error@), ..row_of(old(store)@, job_id) },
        ),
{
    match find_row(&store.rows, job_id) {
        None => {},
        Some(idx) => {
            let ghost before = store@;
            assert(before[idx as int] == store.rows[idx as int]@);
            let ghost next = JobView { error_message: Some(error@), ..before[idx as int] };
            store.rows[idx].error_message = Some(error.to_owned());
            proof {
                assert(store@ =~= before.update(idx as int, next));
                lemma_update_keeps_wf(before, idx as int, next);
                assert forall|i: int| 0 <= i < store@.len() implies (#[trigger] store@[i]).id
                    < store.next_id() by {
                    assert(store@[i].id == before[i].id);
                }
            }
        },
    }
}

/// The table without the pending job of that id: taken out of the queue like
/// a removed job if it waited there, simply deleted if it did not. The table
/// as it is when no job has the id or the job is not pending.
pub open spec fn after_delete_pending(rows: Seq<JobView>, id: i64) -> Seq<JobView> {
    if has_id(rows, id) && row_of(rows, id).status == JobStatus::Pending {
        if queued(row_of(rows, id)) {
            after_remove(rows, index_of(rows, id))
        } else {
            rows.remove(index_of(rows, id))
        }
    } else {
        rows
    }
}

/// Deletes a pending job, in the queue or not. A job that is not pending
/// stays, and so does the table when no job has the id.
pub fn delete_pending_job(store: &mut JobStore, job_id: i64)
    requires
        old(store).wf(),
    ensures
        final(store).wf(),
        final(store).next_id() == old(store).next_id(),
        final(store)@ == after_delete_pending(old(store)@, job_id),
{
    let idx = match find_row(&store.rows, job_id) {
        None => {
            return ;
        },
        Some(idx) => idx,
    };
    let ghost before = store@;
    assert(before[idx as int] == store.rows[idx as int]@);
    if store.rows[idx].status != JobStatus::Pending {
        return ;
    }
    if store.rows[idx].queue_position.is_some() {
        let r = remove_job_from_queue(store, job_id);
        assert(r is Ok);
    } else {
        proof {
            lemma_delete_keeps_wf(before, idx as int);
        }
        let _ = store.rows.remove(idx);
        proof {
            assert(store@ =~= before.remove(idx as int));
            assert forall|i: int| 0 <= i < store@.len() implies (#[trigger] store@[i]).id
                < store.next_id() by {
                let o = if i < idx { i } else { i + 1 };
                assert(store@[i].id == before[o].id);
            }
        }
    }
}

// ---------------------------------------------------------------------------
// Status names
// ---------------------------------------------------------------------------

/// The name under which a status is stored.
pub open spec fn status_text(status: JobStatus) -> Seq<char> {
    match status {
        JobStatus::Pending => "pending"@,
        JobStatus::Running => "running"@,
        JobStatus::Completed => "completed"@,
        JobStatus::Failed => "failed"@,
        JobStatus::Killed => "killed"@,
    }
}

/// The status that a stored name stands for; `Pending` for an unknown name.
pub open spec fn status_of_text(s: Seq<char>) -> JobStatus {
    if s == "running"@ {
        JobStatus::Running
    } else if s == "completed"@ {
        JobStatus::Completed
    } else if s == "failed"@ {
        JobStatus::Failed
    } else if s == "killed"@ {
        JobStatus::Killed
    } else {
        JobStatus::Pending
    }
}

/// The name under which a status is stored.
pub fn status_to_str(status: &JobStatus) -> (s: &'static str)
    ensures
        s@ == status_text(*status),
{
    match status {
        JobStatus::Pending => "pending",
        JobStatus::Running => "running",
        JobStatus::Completed => "completed",
        JobStatus::Failed => "failed",
        JobStatus::Killed => "killed",
    }
}

/// The status that a stored name stands for; `Pending` for an unknown name.
pub fn str_to_status(s: &str) -> (status: JobStatus)
    ensures
        status == status_of_text(s@),
{
    if crate::text::str_eq(s, "running") {
        JobStatus::Running
    } else if crate::text::str_eq(s, "completed") {
        JobStatus::Completed
    } else if crate::text::str_eq(s, "failed") {
        JobStatus::Failed
    } else if crate::text::str_eq(s, "killed") {
        JobStatus::Killed
    } else {
        JobStatus::Pending
    }
}

/// A stored name, read back, gives the status it was written for.
pub proof fn lemma_status_round_trip(status: JobStatus)
    ensures
        status_of_text(status_text(status)) == status,
{
    reveal_strlit("pending");
    reveal_strlit("running");
    reveal_strlit("completed");
    reveal_strlit("failed");
    reveal_strlit("killed");
    assert("pending"@.len() == 7);
    assert("running"@[0] == 'r');
    assert("completed"@.len() == 9);
    assert("failed"@.len() == 6);
    assert("killed"@[0] == 'k');
    assert("failed"@[0] == 'f');
}

impl QueueAction {
    /// The verb of the action, as error messages use it.
    pub open spec fn verb(self) -> Seq<char> {
        match self {
            QueueAction::Remove => "remove"@,
            QueueAction::Move => "move"@,
            QueueAction::Reorder => "reorder"@,
        }
    }

    /// What the action does to pending jobs, as error messages say it.
    pub open spec fn done(self) -> Seq<char> {
        match self {
            QueueAction::Remove => "removed"@,
            _ => "reordered"@,
        }
    }
}

impl QueueError {
    /// The message of the error.
    pub open spec fn text(self) -> Seq<char> {
        match self {
            QueueError::NotFound => "Job not found"@,
            QueueError::NotInQueue => "Job not found in queue"@,
            QueueError::NotPending { action, status } => "Cannot "@ + action.verb()
                + " job with status '"@ + status_text(status) + "'. Only pending jobs can be "@
                + action.done() + "."@,
            QueueError::PositionOutOfRange { position, queue_len } => "Position "@
                + crate::numbers::signed_decimal(position as int) + " is not in the queue (1 to "@
                + crate::numbers::signed_decimal(queue_len as int) + ")"@,
            QueueError::AlreadyRunning { running_id } => "Un job est d\u{e9}j\u{e0} en cours"@,
            QueueError::InvalidTransition { from, to } => "Cannot change job status from '"@
                + status_text(from) + "' to '"@ + status_text(to) + "'"@,
            QueueError::StoreFull => "Job table is full"@,
        }
    }

    /// The message of the error.
    pub fn message(&self) -> (s: String)
        ensures
            s@ == self.text(),
    {
        let mut v: Vec<char> = Vec::new();
        match self {
            QueueError::NotFound => {
                push_str(&mut v, "Job not found");
            },
            QueueError::NotInQueue => {
                push_str(&mut v, "Job not found in queue");
            },
            QueueError::NotPending { action, status } => {
                push_str(&mut v, "Cannot ");
                push_str(
                    &mut v,
                    match action {
                        QueueAction::Remove => "remove",
                        QueueAction::Move => "move",
                        QueueAction::Reorder => "reorder",
                    },
                );
                push_str(&mut v, " job with status '");
                push_str(&mut v, status_to_str(status));
                push_str(&mut v, "'. Only pending jobs can be ");
                push_str(
                    &mut v,
                    match action {
                        QueueAction::Remove => "removed",
                        _ => "reordered",
                    },
                );
                push_str(&mut v, ".");
            },
            QueueError::PositionOutOfRange { position, queue_len } => {
                push_str(&mut v, "Position ");
                crate::numbers::push_signed_decimal(&mut v, *position);
                push_str(&mut v, " is not in the queue (1 to ");
                crate::numbers::push_signed_decimal(&mut v, *queue_len);
                push_str(&mut v, ")");
            },
            QueueError::AlreadyRunning { running_id } => {
                push_str(&mut v, "Un job est d\u{e9}j\u{e0} en cours");
            },
            QueueError::InvalidTransition { from, to } => {
                push_str(&mut v, "Cannot change job status from '");
                push_str(&mut v, status_to_str(from));
                push_str(&mut v, "' to '");
                push_str(&mut v, status_to_str(to));
                push_str(&mut v, "'");
            },
            QueueError::StoreFull => {
                push_str(&mut v, "Job table is full");
            },
        }
        proof {
            assert(v@ =~= self.text());
        }
        string_of(&v)
    }
}

// ---------------------------------------------------------------------------
// Listing
// ---------------------------------------------------------------------------

/// A choice of jobs.
#[derive(Debug, Clone, Copy, PartialEq, Eq, Structural)]
pub enum JobFilter {
    /// The jobs that went through the queue: those with a queue position.
    Queued,
    /// The jobs with status `Pending`.
    Pending,
    /// The jobs that are over: completed, failed or killed.
    Finished,
    /// The jobs with status `Running`.
    Running,
    /// The jobs with status `Completed`.
    Completed,
}

impl JobFilter {
    /// Whether the choice takes the job.
    pub open spec fn takes(self, r: JobView) -> bool {
        match self {
            JobFilter::Queued => r.queue_position is Some,
            JobFilter::Pending => r.status == JobStatus::Pending,
            JobFilter::Finished => r.status.terminal(),
            JobFilter::Running => r.status == JobStatus::Running,
            JobFilter::Completed => r.status == JobStatus::Completed,
        }
    }

    fn test(self, job: &Job) -> (b: bool)
        ensures
            b == self.takes(job@),
    {
        match self {
            JobFilter::Queued => job.queue_position.is_some(),
            JobFilter::Pending => job.status == JobStatus::Pending,
            JobFilter::Finished => job.status.is_terminal(),
            JobFilter::Running => job.status == JobStatus::Running,
            JobFilter::Completed => job.status == JobStatus::Completed,
        }
    }
}

/// The jobs of the table that the choice takes, in the order of the table.
pub open spec fn chosen(rows: Seq<JobView>, filter: JobFilter) -> Seq<JobView> {
    select(rows, |r: JobView| filter.takes(r))
}

fn choose_jobs(rows: &Vec<Job>, filter: JobFilter) -> (out: Vec<Job>)
    ensures
        job_views(out@) == chosen(job_views(rows@), filter),
{
    let ghost views = job_views(rows@);
    let mut out: Vec<Job> = Vec::new();
    let mut i: usize = 0;
    while i < rows.len()
        invariant
            i <= rows.len(),
            views == job_views(rows@),
            job_views(out@) == chosen(views.take(i as int), filter),
        decreases rows.len() - i,
    {
        proof {
            assert(views.take(i + 1).drop_last() =~= views.take(i as int));
            assert(views.take(i + 1).last() == rows[i as int]@);
        }
        if filter.test(&rows[i]) {
            let ghost before = job_views(out@);
            out.push(copy_job(&rows[i]));
            proof {
                assert(job_views(out@) =~= before.push(rows[i as int]@));
            }
        }
        i += 1;
    }
    proof {
        assert(views.take(i as int) =~= views);
    }
    out
}

/// The jobs that went through the queue: the running job first, then the
/// pending jobs by position, then completed, failed and killed jobs.
pub fn get_queued_jobs(store: &JobStore) -> (jobs: Vec<Job>)
    ensures
        sorted_by(job_views(jobs@), JobOrder::Queue),
        job_views(jobs@).to_multiset() == chosen(store@, JobFilter::Queued).to_multiset(),
        jobs.len() == chosen(store@, JobFilter::Queued).len(),
{
    let picked = choose_jobs(&store.rows, JobFilter::Queued);
    sort_jobs(&picked, JobOrder::Queue)
}

/// The pending jobs, oldest first.
pub fn load_pending_jobs(store: &JobStore) -> (jobs: Vec<Job>)
    ensures
        job_views(jobs@) == chosen(store@, JobFilter::Pending),
{
    choose_jobs(&store.rows, JobFilter::Pending)
}

/// The running job.
pub fn load_running_job(store: &JobStore) -> (job: Option<Job>)
    requires
        store.wf(),
    ensures
        job is Some == has_running(store@),
        job is Some ==> job->0@ == store@[running_index(store@)],
{
    match find_running(&store.rows) {
        None => None,
        Some(at) => {
            assert(store@[at as int] == store.rows[at as int]@);
            Some(copy_job(&store.rows[at]))
        },
    }
}

/// Whether `all` holds the finished jobs of the table, the one that ended
/// last first.
pub open spec fn is_history(all: Seq<JobView>, rows: Seq<JobView>) -> bool {
    &&& sorted_by(all, JobOrder::MostRecent)
    &&& all.to_multiset() == chosen(rows, JobFilter::Finished).to_multiset()
    &&& all.len() == chosen(rows, JobFilter::Finished).len()
}

/// The first `limit` items of `all`; all of them when `limit` is negative or
/// there are no more.
pub open spec fn capped(all: Seq<JobView>, limit: int) -> Seq<JobView> {
    if 0 <= limit < all.len() {
        all.take(limit)
    } else {
        all
    }
}

/// The finished jobs, the one that ended last first; no more than `limit` of
/// them, all of them when `limit` is negative.
pub fn load_history(store: &JobStore, limit: i32) -> (jobs: Vec<Job>)
    ensures
        exists|all: Seq<JobView>| #[trigger]
            is_history(all, store@) && job_views(jobs@) == capped(all, limit as int),
{
    let picked = choose_jobs(&store.rows, JobFilter::Finished);
    let mut sorted = sort_jobs(&picked, JobOrder::MostRecent);
    let ghost all = job_views(sorted@);
    assert(is_history(all, store@));
    if limit >= 0 && (limit as usize) < sorted.len() {
        sorted.truncate(limit as usize);
        proof {
            assert(job_views(sorted@) =~= all.take(limit as int));
        }
    }
    assert(job_views(sorted@) == capped(all, limit as int));
    sorted
}

// ---------------------------------------------------------------------------
// Duplicates
// ---------------------------------------------------------------------------

/// Whether the job is one for the benchmark that waits or runs.
pub open spec fn active_for(r: JobView, name: Seq<char>) -> bool {
    r.benchmark_name == name && !r.status.terminal()
}

/// The jobs for the benchmark that wait or run, in the order of the table.
pub open spec fn active_jobs(rows: Seq<JobView>, name: Seq<char>) -> Seq<JobView> {
    select(rows, |r: JobView| active_for(r, name))
}

/// The statuses of the jobs.
pub open spec fn statuses_of(rows: Seq<JobView>) -> Seq<JobStatus> {
    rows.map_values(|r: JobView| r.status)
}

/// The stored names of the statuses.
pub open spec fn status_texts(statuses: Seq<JobStatus>) -> Seq<Seq<char>> {
    statuses.map_values(|s: JobStatus| status_text(s))
}

/// What a look for duplicates found.
#[derive(Debug, Clone)]
pub struct DuplicateCheck {
    /// Whether a job for the benchmark waits or runs.
    pub is_duplicate: bool,
    /// The statuses of those jobs, by their stored names.
    pub existing_statuses: Vec<String>,
}

fn active_statuses(rows: &Vec<Job>, name: &Vec<char>) -> (out: Vec<JobStatus>)
    ensures
        out@ == statuses_of(active_jobs(job_views(rows@), name@)),
{
    let ghost views = job_views(rows@);
    let mut out: Vec<JobStatus> = Vec::new();
    let mut i: usize = 0;
    while i < rows.len()
        invariant
            i <= rows.len(),
            views == job_views(rows@),
            out@ == statuses_of(active_jobs(views.take(i as int), name@)),
        decreases rows.len() - i,
    {
        proof {
            assert(views.take(i + 1).drop_last() =~= views.take(i as int));
            assert(views.take(i + 1).last() == rows[i as int]@);
        }
        let same = crate::text::vec_eq(&crate::text::chars_of(rows[i].benchmark_name.as_str()), name);
        if same && !rows[i].status.is_terminal() {
            let ghost before = active_jobs(views.take(i as int), name@);
            out.push(rows[i].status);
            proof {
                assert(active_jobs(views.take(i + 1), name@) == before.push(rows[i as int]@));
                assert(statuses_of(before.push(rows[i as int]@)) =~= statuses_of(before).push(
                    rows[i as int].status,
                ));
            }
        }
        i += 1;
    }
    proof {
        assert(views.take(i as int) =~= views);
    }
    out
}

fn status_names(statuses: &Vec<JobStatus>) -> (out: Vec<String>)
    ensures
        crate::text::string_views(out@) == status_texts(statuses@),
{
    let mut out: Vec<String> = Vec::new();
    let mut i: usize = 0;
    while i < statuses.len()
        invariant
            i <= statuses.len(),
            out.len() == i,
            forall|j: int| 0 <= j < i ==> (#[trigger] out@[j])@ == status_text(statuses@[j]),
        decreases statuses.len() - i,
    {
        out.push(status_to_str(&statuses[i]).to_owned());
        i += 1;
    }
    proof {
        assert(crate::text::string_views(out@) =~= status_texts(statuses@));
    }
    out
}

/// Looks for jobs of the benchmark that wait or run.
pub fn check_duplicate_job(store: &JobStore, benchmark_name: &str) -> (found: DuplicateCheck)
    ensures
        found.is_duplicate == (active_jobs(store@, benchmark_name@).len() > 0),
        crate::text::string_views(found.existing_statuses@) == status_texts(
            statuses_of(active_jobs(store@, benchmark_name@)),
        ),
{
    let name = crate::text::chars_of(benchmark_name);
    let statuses = active_statuses(&store.rows, &name);
    DuplicateCheck { is_duplicate: statuses.len() > 0, existing_statuses: status_names(&statuses) }
}

// ---------------------------------------------------------------------------
// Taking over a table
// ---------------------------------------------------------------------------

fn ids_in_order(rows: &Vec<Job>) -> (ok: bool)
    ensures
        ok == ids_increase(job_views(rows@)),
{
    let ghost views = job_views(rows@);
    let mut i: usize = 0;
    while i < rows.len()
        invariant
            i <= rows.len(),
            views == job_views(rows@),
            forall|j: int| 0 <= j < i ==> (#[trigger] views[j]).id >= 1,
            forall|a: int, b: int|
                0 <= a < b < i ==> (#[trigger] views[a]).id < (#[trigger] views[b]).id,
        decreases rows.len() - i,
    {
        assert(views[i as int] == rows[i as int]@);
        if rows[i].id < 1 {
            return false;
        }
        if i > 0 {
            assert(views[i - 1] == rows[i - 1]@);
            if rows[i - 1].id >= rows[i].id {
                return false;
            }
            assert forall|a: int| 0 <= a < i implies (#[trigger] views[a]).id
                < views[i as int].id by {
                if a < i - 1 {
                    assert(views[a].id < views[i - 1].id);
                }
            }
        }
        i += 1;
    }
    true
}

fn at_most_one_running(rows: &Vec<Job>) -> (ok: bool)
    ensures
        ok == one_running(job_views(rows@)),
{
    let ghost views = job_views(rows@);
    let mut seen: bool = false;
    let ghost mut first: int = 0;
    let mut i: usize = 0;
    while i < rows.len()
        invariant
            i <= rows.len(),
            views == job_views(rows@),
            seen ==> 0 <= first < i && views[first].status == JobStatus::Running,
            !seen ==> forall|j: int| 0 <= j < i ==> (#[trigger] views[j]).status
                != JobStatus::Running,
            seen ==> forall|j: int| 0 <= j < i && (#[trigger] views[j]).status
                == JobStatus::Running ==> j == first,
        decreases rows.len() - i,
    {
        assert(views[i as int] == rows[i as int]@);
        if rows[i].status == JobStatus::Running {
            if seen {
                return false;
            }
            seen = true;
            proof {
                first = i as int;
            }
        }
        i += 1;
    }
    true
}

fn count_queued(rows: &Vec<Job>) -> (n: usize)
    ensures
        n == queue_len(job_views(rows@)),
{
    let ghost views = job_views(rows@);
    let mut n: usize = 0;
    let mut i: usize = 0;
    while i < rows.len()
        invariant
            i <= rows.len(),
            views == job_views(rows@),
            n == queue_len(views.take(i as int)),
            n <= i,
        decreases rows.len() - i,
    {
        proof {
            assert(views.take(i + 1).drop_last() =~= views.take(i as int));
            assert(views.take(i + 1).last() == rows[i as int]@);
        }
        if is_queued(&rows[i]) {
            n += 1;
        }
        i += 1;
    }
    proof {
        assert(views.take(i as int) =~= views);
    }
    n
}

fn positions_are_dense(rows: &Vec<Job>) -> (ok: bool)
    ensures
        ok == positions_dense(job_views(rows@)),
{
    let ghost views = job_views(rows@);
    let k = count_queued(rows);
    let mut seen: Vec<bool> = Vec::new();
    let mut q: usize = 0;
    while q < k
        invariant
            q <= k,
            seen.len() == q,
            forall|t: int| 0 <= t < q ==> !(#[trigger] seen@[t]),
        decreases k - q,
    {
        seen.push(false);
        q += 1;
    }
    let ghost mut owner: Seq<int> = Seq::new(k as nat, |t: int| 0);
    let mut i: usize = 0;
    while i < rows.len()
        invariant
            i <= rows.len(),
            views == job_views(rows@),
            k == queue_len(views),
            seen.len() == k,
            owner.len() == k,
            forall|t: int|
                0 <= t < k && (#[trigger] seen@[t]) ==> 0 <= owner[t] < i && queued(
                    views[owner[t]],
                ) && pos(views[owner[t]]) == t + 1,
            forall|j: int|
                0 <= j < i && queued(#[trigger] views[j]) ==> 1 <= pos(views[j]) <= k && seen@[pos(
                    views[j],
                ) - 1] && owner[pos(views[j]) - 1] == j,
        decreases rows.len() - i,
    {
        assert(views[i as int] == rows[i as int]@);
        if is_queued(&rows[i]) {
            let p: i64 = rows[i].queue_position.unwrap();
            if p < 1 || p as u64 > k as u64 {
                return false;
            }
            let slot: usize = (p - 1) as usize;
            if seen[slot] {
                proof {
                    let j = owner[slot as int];
                    assert(queued(views[j]) && queued(views[i as int]));
                    assert(pos(views[j]) == pos(views[i as int]));
                }
                return false;
            }
            seen.set(slot, true);
            proof {
                owner = owner.update(slot as int, i as int);
            }
        }
        i += 1;
    }
    proof {
        assert forall|a: int, b: int|
            0 <= a < b < views.len() && queued(#[trigger] views[a]) && queued(
                #[trigger] views[b],
            ) implies pos(views[a]) != pos(views[b]) by {
            if pos(views[a]) == pos(views[b]) {
                assert(owner[pos(views[a]) - 1] == a);
                assert(owner[pos(views[b]) - 1] == b);
            }
        }
    }
    true
}

impl JobStore {
    /// Takes over the jobs of a table read from elsewhere, in the order of
    /// their ids. Refused unless the jobs make a valid table whose ids leave
    /// room for a next one.
    pub fn from_rows(rows: Vec<Job>) -> (store: Option<JobStore>)
        ensures
            store is Some == (rows_wf(job_views(rows@)) && (rows.len() > 0 ==> rows@.last().id
                < i64::MAX)),
            store is Some ==> {
                &&& store->0.wf()
                &&& store->0@ == job_views(rows@)
                &&& store->0.next_id() == (if rows.len() == 0 {
                    1
                } else {
                    rows@.last().id + 1
                })
            },
    {
        let ghost views = job_views(rows@);
        if !ids_in_order(&rows) || !at_most_one_running(&rows) || !positions_are_dense(&rows) {
            return None;
        }
        let next_id: i64 = if rows.len() == 0 {
            1
        } else {
            assert(views[rows.len() - 1] == rows@.last()@);
            let last = rows[rows.len() - 1].id;
            if last == i64::MAX {
                return None;
            }
            last + 1
        };
        let store = JobStore { rows, next_id };
        proof {
            assert forall|i: int| 0 <= i < store@.len() implies (#[trigger] store@[i]).id
                < store.next_id() by {
                if i < views.len() - 1 {
                    assert(views[i].id < views[views.len() - 1].id);
                }
            }
        }
        Some(store)
    }
}

// ---------------------------------------------------------------------------
// Counting, recording the end of a job, starting the next one
// ---------------------------------------------------------------------------

/// The number of jobs that the choice takes.
pub fn count_jobs(store: &JobStore, filter: JobFilter) -> (n: usize)
    ensures
        n == chosen(store@, filter).len(),
{
    let ghost views = store@;
    let mut n: usize = 0;
    let mut i: usize = 0;
    while i < store.rows.len()
        invariant
            i <= store.rows.len(),
            views == job_views(store.rows@),
            n == chosen(views.take(i as int), filter).len(),
            n <= i,
        decreases store.rows.len() - i,
    {
        proof {
            assert(views.take(i + 1).drop_last() =~= views.take(i as int));
            assert(views.take(i + 1).last() == store.rows[i as int]@);
        }
        if filter.test(&store.rows[i]) {
            n += 1;
        }
        i += 1;
    }
    proof {
        assert(views.take(i as int) =~= views);
    }
    n
}

/// The job with the details that are given put in: progress, log and error.
pub open spec fn detailed(
    r: JobView,
    progress: Option<(u32, u32)>,
    logs: Option<Seq<char>>,
    error: Option<Seq<char>>,
) -> JobView {
    JobView {
        progress_current: match progress {
            Some((current, _)) => current,
            None => r.progress_current,
        },
        progress_total: match progress {
            Some((_, total)) => total,
            None => r.progress_total,
        },
        log_content: match logs {
            Some(text) => text,
            None => r.log_content,
        },
        error_message: match error {
            Some(text) => Some(text),
            None => r.error_message,
        },
        ..r
    }
}

/// Records those of progress, log and error of a job that are given.
/// Without a job of that id nothing happens.
pub fn update_job_details(
    store: &mut JobStore,
    job_id: i64,
    progress: Option<(u32, u32)>,
    logs: Option<&str>,
    error: Option<&str>,
)
    requires
        old(store).wf(),
    ensures
        final(store).wf(),
        final(store).next_id() == old(store).next_id(),
        final(store)@ == with_row(
            old(store)@,
            job_id,
            detailed(row_of(old(store)@, job_id), progress, opt_str(logs), opt_str(error)),
        ),
{
    match find_row(&store.rows, job_id) {
        None => {},
        Some(idx) => {
            let ghost before = store@;
            assert(before[idx as int] == store.rows[idx as int]@);
            let ghost next = detailed(before[idx as int], progress, opt_str(logs), opt_str(error));
            match progress {
                Some((current, total)) => {
                    store.rows[idx].progress_current = current;
                    store.rows[idx].progress_total = total;
                },
                None => {},
            }
            match logs {
                Some(text) => {
                    store.rows[idx].log_content = text.to_owned();
                },
                None => {},
            }
            match error {
                Some(text) => {
                    store.rows[idx].error_message = Some(text.to_owned());
                },
                None => {},
            }
            proof {
                assert(store@ =~= before.update(idx as int, next));
                lemma_update_keeps_wf(before, idx as int, next);
                assert forall|i: int| 0 <= i < store@.len() implies (#[trigger] store@[i]).id
                    < store.next_id() by {
                    assert(store@[i].id == before[i].id);
                }
            }
        },
    }
}

/// Gives a job a new status at the time `at` and records those of progress,
/// log and error that are given; all of it or, where the change of status is
/// refused, nothing.
pub fn record_job_at(
    store: &mut JobStore,
    job_id: i64,
    status: JobStatus,
    at: &str,
    progress: Option<(u32, u32)>,
    logs: Option<&str>,
    error: Option<&str>,
) -> (r: Result<(), QueueError>)
    requires
        old(store).wf(),
    ensures
        final(store).wf(),
        final(store).next_id() == old(store).next_id(),
        match (r, status_target(old(store)@, job_id, status)) {
            (Ok(()), Ok(Some(idx))) => {
                let changed = after_leave(
                    old(store)@,
                    idx,
                    with_status(old(store)@[idx], status, at@),
                );
                final(store)@ == with_row(
                    changed,
                    job_id,
                    detailed(row_of(changed, job_id), progress, opt_str(logs), opt_str(error)),
                )
            },
            (Ok(()), Ok(None)) => final(store)@ == old(store)@,
            (Err(e), Err(f)) => e == f && final(store)@ == old(store)@,
            _ => false,
        },
{
    let ghost before = store@;
    match update_job_status_at(store, job_id, status, at) {
        Err(e) => Err(e),
        Ok(()) => {
            proof {
                if !has_id(before, job_id) {
                    assert(!has_id(store@, job_id));
                }
            }
            update_job_details(store, job_id, progress, logs, error);
            Ok(())
        },
    }
}

/// Records that a job has failed, with the error, at the time `now`.
/// Refused, with the table left as it was, for a job that is over already.
pub fn mark_job_failed_at(store: &mut JobStore, job_id: i64, error: &str, now: &str) -> (r: Result<
    (),
    QueueError,
>)
    requires
        old(store).wf(),
    ensures
        final(store).wf(),
        final(store).next_id() == old(store).next_id(),
        match (r, status_target(old(store)@, job_id, JobStatus::Failed)) {
            (Ok(()), Ok(Some(idx))) => {
                let changed = after_leave(
                    old(store)@,
                    idx,
                    with_status(old(store)@[idx], JobStatus::Failed, now@),
                );
                final(store)@ == with_row(
                    changed,
                    job_id,
                    detailed(row_of(changed, job_id), None, None, Some(error@)),
                )
            },
            (Ok(()), Ok(None)) => final(store)@ == old(store)@,
            (Err(e), Err(f)) => e == f && final(store)@ == old(store)@,
            _ => false,
        },
{
    record_job_at(store, job_id, JobStatus::Failed, now, None, None, Some(error))
}

/// What recording a failure at some time makes of the table: the job gets
/// the status `Failed`, that time as its end and the error.
pub open spec fn failure_recorded(
    before: Seq<JobView>,
    after: Seq<JobView>,
    idx: int,
    job_id: i64,
    error: Seq<char>,
    now: Seq<char>,
) -> bool {
    let changed = after_leave(before, idx, with_status(before[idx], JobStatus::Failed, now));
    after == with_row(changed, job_id, detailed(row_of(changed, job_id), None, None, Some(error)))
}

/// Records that a job has failed, with the error, now. Refused, with the
/// table left as it was, for a job that is over already.
pub fn mark_job_failed(store: &mut JobStore, job_id: i64, error: &str) -> (r: Result<
    (),
    QueueError,
>)
    requires
        old(store).wf(),
    ensures
        final(store).wf(),
        final(store).next_id() == old(store).next_id(),
        match (r, status_target(old(store)@, job_id, JobStatus::Failed)) {
            (Ok(()), Ok(Some(idx))) => exists|now: Seq<char>| #[trigger]
                failure_recorded(old(store)@, final(store)@, idx, job_id, error@, now),
            (Ok(()), Ok(None)) => final(store)@ == old(store)@,
            (Err(e), Err(f)) => e == f && final(store)@ == old(store)@,
            _ => false,
        },
{
    let now = now_rfc3339();
    let r = mark_job_failed_at(store, job_id, error, now.as_str());
    proof {
        match status_target(old(store)@, job_id, JobStatus::Failed) {
            Ok(Some(idx)) => {
                assert(failure_recorded(old(store)@, store@, idx, job_id, error@, now@));
            },
            _ => {},
        }
    }
    r
}

/// The job with nothing left to do: its progress stands at the total.
pub open spec fn all_done(r: JobView) -> JobView {
    JobView { progress_current: r.progress_total, ..r }
}

/// The time at which a job ended: the time that the remote machine gives,
/// and `now` where it gives none.
pub open spec fn end_time(completed_at: Option<Seq<char>>, now: Seq<char>) -> Seq<char> {
    match completed_at {
        Some(at) => at,
        None => now,
    }
}

/// What recording the end of the job at `idx` makes of the table: the job
/// gets the status and the time `at`, and its progress stands at the total.
pub open spec fn after_end(
    rows: Seq<JobView>,
    idx: int,
    job_id: i64,
    status: JobStatus,
    at: Seq<char>,
) -> Seq<JobView> {
    let changed = after_leave(rows, idx, with_status(rows[idx], status, at));
    with_row(changed, job_id, all_done(row_of(changed, job_id)))
}

/// Records how a job ended on the remote machine: the job gets the status,
/// the time at which it ended there, or `now` where that time is not known,
/// and its progress is set to the total. All of it or, where the change of
/// status is refused, nothing. Without a job of that id nothing happens.
pub fn finish_job_at(
    store: &mut JobStore,
    job_id: i64,
    status: JobStatus,
    completed_at: Option<&str>,
    now: &str,
) -> (r: Result<(), QueueError>)
    requires
        old(store).wf(),
    ensures
        final(store).wf(),
        final(store).next_id() == old(store).next_id(),
        match (r, status_target(old(store)@, job_id, status)) {
            (Ok(()), Ok(Some(idx))) => final(store)@ == after_end(
                old(store)@,
                idx,
                job_id,
                status,
                end_time(opt_str(completed_at), now@),
            ),
            (Ok(()), Ok(None)) => final(store)@ == old(store)@,
            (Err(e), Err(f)) => e == f && final(store)@ == old(store)@,
            _ => false,
        },
{
    let ghost before = store@;
    let at = match completed_at {
        Some(given) => given,
        None => now,
    };
    match update_job_status_at(store, job_id, status, at) {
        Err(e) => Err(e),
        Ok(()) => {
            let ghost changed = store@;
            match find_row(&store.rows, job_id) {
                None => {
                    proof {
                        if has_id(before, job_id) {
                            let idx = index_of(before, job_id);
                            assert(changed[idx].id == before[idx].id);
                        }
                    }
                },
                Some(idx) => {
                    assert(changed[idx as int] == store.rows[idx as int]@);
                    let total = store.rows[idx].progress_total;
                    update_job_progress(store, job_id, total, total);
                    proof {
                        if !has_id(before, job_id) {
                            assert(!has_id(changed, job_id));
                        }
                        assert(all_done(row_of(changed, job_id)) == (JobView {
                            progress_current: total,
                            progress_total: total,
                            ..row_of(changed, job_id)
                        }));
                    }
                },
            }
            Ok(())
        },
    }
}

/// What recording the end of a job at some time makes of the table.
pub open spec fn end_recorded(
    before: Seq<JobView>,
    after: Seq<JobView>,
    idx: int,
    job_id: i64,
    status: JobStatus,
    completed_at: Option<Seq<char>>,
    now: Seq<char>,
) -> bool {
    after == after_end(before, idx, job_id, status, end_time(completed_at, now))
}

/// Records how a job ended on the remote machine. See `finish_job_at`: this
/// is the same with the time read from the clock, which counts only where
/// the remote machine gives no time.
pub fn finish_job(store: &mut JobStore, job_id: i64, status: JobStatus, completed_at: Option<&str>) -> (r:
    Result<(), QueueError>)
    requires
        old(store).wf(),
    ensures
        final(store).wf(),
        final(store).next_id() == old(store).next_id(),
        match (r, status_target(old(store)@, job_id, status)) {
            (Ok(()), Ok(Some(idx))) => exists|now: Seq<char>| #[trigger]
                end_recorded(
                    old(store)@,
                    final(store)@,
                    idx,
                    job_id,
                    status,
                    opt_str(completed_at),
                    now,
                ),
            (Ok(()), Ok(None)) => final(store)@ == old(store)@,
            (Err(e), Err(f)) => e == f && final(store)@ == old(store)@,
            _ => false,
        },
        completed_at is Some ==> (match (r, status_target(old(store)@, job_id, status)) {
            (Ok(()), Ok(Some(idx))) => final(store)@ == after_end(
                old(store)@,
                idx,
                job_id,
                status,
                completed_at->0@,
            ),
            _ => true,
        }),
{
    let now = now_rfc3339();
    let r = finish_job_at(store, job_id, status, completed_at, now.as_str());
    proof {
        match status_target(old(store)@, job_id, status) {
            Ok(Some(idx)) => {
                assert(end_recorded(
                    old(store)@,
                    store@,
                    idx,
                    job_id,
                    status,
                    opt_str(completed_at),
                    now@,
                ));
            },
            _ => {},
        }
    }
    r
}

/// The index of the first pending job among the rows from `from` on; the
/// number of rows when none is pending.
pub open spec fn pending_from(rows: Seq<JobView>, from: int) -> int
    decreases rows.len() - from,
{
    if from < 0 || from >= rows.len() {
        rows.len() as int
    } else if rows[from].status == JobStatus::Pending {
        from
    } else {
        pending_from(rows, from + 1)
    }
}

/// Starts the oldest pending job at the time `now`: the job is recorded as
/// running and returned as it is then. Refused, with the table left as it
/// was, while a job is running. With no job pending nothing happens.
pub fn start_next_job_at(store: &mut JobStore, now: &str) -> (r: Result<Option<Job>, QueueError>)
    requires
        old(store).wf(),
    ensures
        final(store).wf(),
        final(store).next_id() == old(store).next_id(),
        has_running(old(store)@) ==> r == Err::<Option<Job>, QueueError>(
            QueueError::AlreadyRunning { running_id: old(store)@[running_index(old(store)@)].id },
        ) && final(store)@ == old(store)@,
        !has_running(old(store)@) && pending_from(old(store)@, 0) >= old(store)@.len() ==> (r
            matches Ok(None)) && final(store)@ == old(store)@,
        !has_running(old(store)@) && pending_from(old(store)@, 0) < old(store)@.len() ==> {
            let idx = pending_from(old(store)@, 0);
            &&& (r matches Ok(Some(job)) && job@ == with_status(
                old(store)@[idx],
                JobStatus::Running,
                now@,
            ))
            &&& final(store)@ == after_leave(
                old(store)@,
                idx,
                with_status(old(store)@[idx], JobStatus::Running, now@),
            )
        },
{
    let ghost before = store@;
    match find_running(&store.rows) {
        Some(at) => {
            assert(before[at as int] == store.rows[at as int]@);
            return Err(QueueError::AlreadyRunning { running_id: store.rows[at].id });
        },
        None => {},
    }
    let mut i: usize = 0;
    while i < store.rows.len() && store.rows[i].status != JobStatus::Pending
        invariant
            i <= store.rows.len(),
            before == job_views(store.rows@),
            pending_from(before, 0) == pending_from(before, i as int),
        decreases store.rows.len() - i,
    {
        assert(before[i as int] == store.rows[i as int]@);
        i += 1;
    }
    if i >= store.rows.len() {
        return Ok(None);
    }
    assert(before[i as int] == store.rows[i as int]@);
    let id = store.rows[i].id;
    proof {
        assert(has_id(before, id));
        let c = index_of(before, id);
        assert(before[c].id == id);
        if c < i {
            assert(before[c].id < before[i as int].id);
        }
        if i < c {
            assert(before[i as int].id < before[c].id);
        }
    }
    let r = update_job_status_at(store, id, JobStatus::Running, now);
    assert(r is Ok);
    proof {
        let next = with_status(before[i as int], JobStatus::Running, now@);
        assert(store@.len() == before.len());
        assert(store.rows@.len() == store@.len());
        assert(store@[i as int] == next) by {
            if queued(before[i as int]) {
                assert(store@[i as int] == shifted(
                    before.update(i as int, next)[i as int],
                    pos(before[i as int]) + 1,
                    i64::MAX as int,
                    -1,
                ));
            }
        }
    }
    assert(store@[i as int] == store.rows[i as int]@);
    Ok(Some(copy_job(&store.rows[i])))
}

// ---------------------------------------------------------------------------
// Reading a stored job
// ---------------------------------------------------------------------------

/// The count that a stored progress value stands for: the value itself, or,
/// for a negative value, what it wraps to as an unsigned number.
pub open spec fn stored_count(value: i32) -> u32 {
    if value >= 0 {
        value as u32
    } else {
        (value + 0x1_0000_0000) as u32
    }
}

fn count_of(value: i32) -> (n: u32)
    ensures
        n == stored_count(value),
{
    if value >= 0 {
        value as u32
    } else {
        let up: i64 = value as i64 + 0x1_0000_0000i64;
        up as u32
    }
}

/// The job that the columns of a stored row stand for. The status is read
/// from its stored name, the progress from the stored numbers, and a row
/// without log has an empty one.
pub fn job_from_columns(
    id: i64,
    project_id: Option<i64>,
    benchmark_name: String,
    status: &str,
    created_at: String,
    started_at: Option<String>,
    finished_at: Option<String>,
    progress_current: i32,
    progress_total: i32,
    results_path: Option<String>,
    error_message: Option<String>,
    log_content: Option<String>,
    queue_position: Option<i64>,
    queued_at: Option<String>,
) -> (job: Job)
    ensures
        job@ == (JobView {
            id,
            project_id,
            benchmark_name: benchmark_name@,
            status: status_of_text(status@),
            created_at: created_at@,
            started_at: opt_view(started_at),
            finished_at: opt_view(finished_at),
            progress_current: stored_count(progress_current),
            progress_total: stored_count(progress_total),
            results_path: opt_view(results_path),
            error_message: opt_view(error_message),
            log_content: match log_content {
                Some(text) => text@,
                None => Seq::empty(),
            },
            queue_position,
            queued_at: opt_view(queued_at),
        }),
{
    Job {
        id,
        project_id,
        benchmark_name,
        status: str_to_status(status),
        created_at,
        started_at,
        finished_at,
        progress_current: count_of(progress_current),
        progress_total: count_of(progress_total),
        results_path,
        error_message,
        log_content: match log_content {
            Some(text) => text,
            None => String::new(),
        },
        queue_position,
        queued_at,
    }
}

/// The number under which a count of progress is stored: the count itself,
/// or, for a count beyond the signed numbers, what it wraps to.
pub fn count_to_store(count: u32) -> (value: i32)
    ensures
        stored_count(value) == count,
{
    if count <= 0x7fff_ffff {
        count as i32
    } else {
        let down: i64 = count as i64 - 0x1_0000_0000i64;
        down as i32
    }
}

} // verus!
