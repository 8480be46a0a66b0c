//! Orders on text and on jobs, and sorting jobs by them.

use vstd::prelude::*;
use crate::state::{copy_job, job_views, Job, JobStatus, JobView};
use crate::text::chars_of;

verus! {

// ---------------------------------------------------------------------------
// Text
// ---------------------------------------------------------------------------

/// Whether `a` comes no later than `b` in the order of a dictionary, read
/// from index `i` on: the first character in which they differ decides, and
/// a text comes before those that it begins.
pub open spec fn text_le_from(a: Seq<char>, b: Seq<char>, i: int) -> bool
    decreases a.len() - i,
{
    if i >= a.len() {
        true
    } else if i >= b.len() {
        false
    } else if a[i] != b[i] {
        a[i] < b[i]
    } else {
        text_le_from(a, b, i + 1)
    }
}

/// Whether `a` comes no later than `b` in the order of a dictionary.
pub open spec fn text_le(a: Seq<char>, b: Seq<char>) -> bool {
    text_le_from(a, b, 0)
}

/// Of two texts one comes no later than the other.
pub proof fn lemma_text_le_total(a: Seq<char>, b: Seq<char>, i: int)
    requires
        0 <= i,
    ensures
        text_le_from(a, b, i) || text_le_from(b, a, i),
    decreases a.len() - i,
{
    if i < a.len() && i < b.len() && a[i] == b[i] {
        lemma_text_le_total(a, b, i + 1);
    }
}

/// What comes no later than a text that comes no later than a third comes no
/// later than the third.
pub proof fn lemma_text_le_trans(a: Seq<char>, b: Seq<char>, c: Seq<char>, i: int)
    requires
        0 <= i,
        text_le_from(a, b, i),
        text_le_from(b, c, i),
    ensures
        text_le_from(a, c, i),
    decreases a.len() - i,
{
    if i < a.len() && a[i] == b[i] && b[i] == c[i] {
        lemma_text_le_trans(a, b, c, i + 1);
    }
}

/// Two texts that each come no later than the other agree from `i` on.
pub proof fn lemma_text_le_antisym(a: Seq<char>, b: Seq<char>, i: int)
    requires
        0 <= i <= a.len(),
        i <= b.len(),
        text_le_from(a, b, i),
        text_le_from(b, a, i),
    ensures
        a.len() == b.len(),
        forall|j: int| i <= j < a.len() ==> a[j] == b[j],
    decreases a.len() - i,
{
    if i < a.len() {
        lemma_text_le_antisym(a, b, i + 1);
    }
}

/// Whether `a` comes no later than `b` in the order of a dictionary.
pub fn text_before(a: &Vec<char>, b: &Vec<char>) -> (r: bool)
    ensures
        r == text_le(a@, b@),
{
    let mut i: usize = 0;
    while i < a.len() && i < b.len() && a[i] == b[i]
        invariant
            i <= a.len(),
            i <= b.len(),
            text_le(a@, b@) == text_le_from(a@, b@, i as int),
        decreases a.len() - i,
    {
        i += 1;
    }
    if i >= a.len() {
        true
    } else if i >= b.len() {
        false
    } else {
        a[i] < b[i]
    }
}

/// Whether the time stamp `a` is no later than `b`. A missing stamp comes
/// before every stamp.
pub open spec fn stamp_le(a: Option<Seq<char>>, b: Option<Seq<char>>) -> bool {
    match (a, b) {
        (None, _) => true,
        (Some(_), None) => false,
        (Some(x), Some(y)) => text_le(x, y),
    }
}

/// Whether the time stamp `a` is no later than `b`.
pub fn stamp_before(a: &Option<String>, b: &Option<String>) -> (r: bool)
    ensures
        r == stamp_le(crate::state::opt_view(*a), crate::state::opt_view(*b)),
{
    match a {
        None => true,
        Some(x) => match b {
            None => false,
            Some(y) => {
                let xs = chars_of(x.as_str());
                let ys = chars_of(y.as_str());
                text_before(&xs, &ys)
            },
        },
    }
}

// ---------------------------------------------------------------------------
// Jobs
// ---------------------------------------------------------------------------

/// An order in which jobs are listed.
#[derive(Debug, Clone, Copy, PartialEq, Eq, Structural)]
pub enum JobOrder {
    /// The running job first, then the pending jobs, then completed, failed
    /// and killed ones; within a status by queue position, and by id where
    /// positions are equal.
    Queue,
    /// The job that ended last first; where end times are equal, the greater
    /// id first.
    MostRecent,
}

/// The queue position of a job, 0 for a job without one.
pub open spec fn position_or_zero(r: JobView) -> int {
    match r.queue_position {
        Some(p) => p as int,
        None => 0,
    }
}

/// Whether `a` may stand before `b` in the order.
pub open spec fn job_le(order: JobOrder, a: JobView, b: JobView) -> bool {
    match order {
        JobOrder::Queue => {
            ||| a.status.rank() < b.status.rank()
            ||| a.status.rank() == b.status.rank() && position_or_zero(a) < position_or_zero(b)
            ||| a.status.rank() == b.status.rank() && position_or_zero(a) == position_or_zero(b)
                && a.id <= b.id
        },
        JobOrder::MostRecent => {
            ||| !stamp_le(a.finished_at, b.finished_at)
            ||| stamp_le(b.finished_at, a.finished_at) && a.id >= b.id
        },
    }
}

/// Each job may stand before every job behind it.
pub open spec fn sorted_by(jobs: Seq<JobView>, order: JobOrder) -> bool {
    forall|i: int, j: int| 0 <= i < j < jobs.len() ==> job_le(order, jobs[i], jobs[j])
}

/// Of two jobs one may stand before the other.
pub proof fn lemma_job_le_total(order: JobOrder, a: JobView, b: JobView)
    ensures
        job_le(order, a, b) || job_le(order, b, a),
{
    if order == JobOrder::MostRecent {
        match (a.finished_at, b.finished_at) {
            (Some(x), Some(y)) => {
                lemma_text_le_total(x, y, 0);
            },
            _ => {},
        }
    }
}

/// The order is transitive.
pub proof fn lemma_job_le_trans(order: JobOrder, a: JobView, b: JobView, c: JobView)
    requires
        job_le(order, a, b),
        job_le(order, b, c),
    ensures
        job_le(order, a, c),
{
    if order == JobOrder::MostRecent {
        lemma_stamp_le_total(a.finished_at, b.finished_at);
        lemma_stamp_le_total(b.finished_at, c.finished_at);
        lemma_stamp_le_total(a.finished_at, c.finished_at);
        // a >= b >= c in time
        lemma_stamp_le_trans(c.finished_at, b.finished_at, a.finished_at);
        if stamp_le(a.finished_at, c.finished_at) {
            lemma_stamp_le_trans(a.finished_at, c.finished_at, b.finished_at);
            lemma_stamp_le_trans(b.finished_at, a.finished_at, c.finished_at);
        }
    }
}

/// Of two time stamps one is no later than the other.
pub proof fn lemma_stamp_le_total(a: Option<Seq<char>>, b: Option<Seq<char>>)
    ensures
        stamp_le(a, b) || stamp_le(b, a),
{
    match (a, b) {
        (Some(x), Some(y)) => {
            lemma_text_le_total(x, y, 0);
        },
        _ => {},
    }
}

/// The order of time stamps is transitive.
pub proof fn lemma_stamp_le_trans(
    a: Option<Seq<char>>,
    b: Option<Seq<char>>,
    c: Option<Seq<char>>,
)
    requires
        stamp_le(a, b),
        stamp_le(b, c),
    ensures
        stamp_le(a, c),
{
    match (a, b, c) {
        (Some(x), Some(y), Some(z)) => {
            lemma_text_le_trans(x, y, z, 0);
        },
        _ => {},
    }
}

/// In the order of the queue the running job comes first, then the pending
/// jobs by ascending position, then the jobs that are over.
pub proof fn lemma_queue_order(jobs: Seq<JobView>, i: int, j: int)
    requires
        sorted_by(jobs, JobOrder::Queue),
        0 <= i < j < jobs.len(),
    ensures
        jobs[j].status == JobStatus::Running ==> jobs[i].status == JobStatus::Running,
        jobs[j].status == JobStatus::Pending ==> jobs[i].status == JobStatus::Running
            || jobs[i].status == JobStatus::Pending,
        jobs[i].status.terminal() ==> jobs[j].status.terminal(),
        jobs[i].status == jobs[j].status ==> position_or_zero(jobs[i]) <= position_or_zero(
            jobs[j],
        ),
{
    assert(job_le(JobOrder::Queue, jobs[i], jobs[j]));
}

/// Whether `a` may stand before `b` in the order.
pub fn job_before(order: JobOrder, a: &Job, b: &Job) -> (r: bool)
    ensures
        r == job_le(order, a@, b@),
{
    match order {
        JobOrder::Queue => {
            let ra = a.status.listing_rank();
            let rb = b.status.listing_rank();
            let pa: i64 = match a.queue_position {
                Some(p) => p,
                None => 0,
            };
            let pb: i64 = match b.queue_position {
                Some(p) => p,
                None => 0,
            };
            ra < rb || (ra == rb && pa < pb) || (ra == rb && pa == pb && a.id <= b.id)
        },
        JobOrder::MostRecent => {
            !stamp_before(&a.finished_at, &b.finished_at) || (stamp_before(
                &b.finished_at,
                &a.finished_at,
            ) && a.id >= b.id)
        },
    }
}

/// The jobs in the order asked for: the same jobs, each as often as before.
pub fn sort_jobs(jobs: &Vec<Job>, order: JobOrder) -> (out: Vec<Job>)
    ensures
        sorted_by(job_views(out@), order),
        job_views(out@).to_multiset() == job_views(jobs@).to_multiset(),
        out.len() == jobs.len(),
{
    broadcast use vstd::seq_lib::group_to_multiset_ensures;

    let ghost all = job_views(jobs@);
    let mut out: Vec<Job> = Vec::new();
    let mut i: usize = 0;
    proof {
        assert(all.take(0) =~= job_views(out@));
    }
    while i < jobs.len()
        invariant
            i <= jobs.len(),
            all == job_views(jobs@),
            out.len() == i,
            sorted_by(job_views(out@), order),
            job_views(out@).to_multiset() == all.take(i as int).to_multiset(),
        decreases jobs.len() - i,
    {
        let job = copy_job(&jobs[i]);
        let ghost cur = job_views(out@);
        let mut k: usize = 0;
        while k < out.len() && job_before(order, &out[k], &job)
            invariant
                k <= out.len(),
                cur == job_views(out@),
                forall|t: int| 0 <= t < k ==> job_le(order, cur[t], job@),
            decreases out.len() - k,
        {
            assert(cur[k as int] == out[k as int]@);
            k += 1;
        }
        proof {
            if k < out.len() {
                assert(cur[k as int] == out[k as int]@);
                lemma_job_le_total(order, cur[k as int], job@);
                assert forall|t: int| k <= t < cur.len() implies job_le(order, job@, cur[t]) by {
                    if t > k {
                        lemma_job_le_trans(order, job@, cur[k as int], cur[t]);
                    }
                }
            }
        }
        out.insert(k, job);
        proof {
            let new = job_views(out@);
            assert(new =~= cur.insert(k as int, job@));
            assert forall|a: int, b: int| 0 <= a < b < new.len() implies job_le(
                order,
                new[a],
                new[b],
            ) by {
                if a < k && b > k {
                    assert(new[a] == cur[a]);
                    assert(new[b] == cur[b - 1]);
                } else if a < k && b < k {
                    assert(new[a] == cur[a] && new[b] == cur[b]);
                } else if a > k {
                    assert(new[a] == cur[a - 1] && new[b] == cur[b - 1]);
                }
            }
            assert(all.take(i + 1) =~= all.take(i as int).push(job@));
            vstd::seq_lib::to_multiset_insert(cur, k as int, job@);
            vstd::seq_lib::to_multiset_build(all.take(i as int), job@);
        }
        i += 1;
    }
    proof {
        assert(all.take(i as int) =~= all);
    }
    out
}

} // verus!
