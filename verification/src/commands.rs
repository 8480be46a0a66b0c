//! What the operations offered to the user decide: queueing benchmarks,
//! counting the queue, and reading the state of the job at work.

use vstd::prelude::*;
use crate::clock::now_rfc3339;
use crate::config::DuplicateHandling;
use crate::db::{
    active_jobs, append, check_duplicate_job, chosen, count_jobs, detailed, fresh_job,
    get_max_queue_position, make_job, record_job_at, row_of, status_target, status_texts,
    statuses_of, update_job_progress, with_row, with_status, JobFilter, JobStore, QueueError,
};
use crate::protocol::{log_verdict, Verdict};
use crate::queue_service::{QueueManager, QueueState};
use crate::job::{
    detect_job_error, detect_job_finished, parse_progress, progress_of, shows_error, tail_of,
};
use crate::lines::join;
use crate::numbers::{decimal, push_decimal};
use crate::queue_laws::lemma_max_le_len;
use crate::queue_spec::{after_leave, lemma_len_below_ids, lemma_queue_len_bound, max_position};
use crate::state::{
    copy_job, job_views, opt_view, Benchmark, BenchmarkView, Job, JobStatus, JobView,
};
use crate::text::{push_str, string_of, string_views};

verus! {

// ---------------------------------------------------------------------------
// Queueing benchmarks
// ---------------------------------------------------------------------------

/// Why benchmarks were not queued.
#[derive(Debug, Clone)]
pub enum EnqueueError {
    /// No benchmark has the id.
    UnknownBenchmark { id: i64 },
    /// A job of the benchmark waits or runs, and duplicates are not allowed.
    Duplicate { name: String },
    /// A job of the benchmark waits or runs; the statuses of those jobs are
    /// given, so that the caller can ask again with force.
    DuplicateWarning { name: String, statuses: Vec<String> },
    /// The table cannot take that many jobs: ids are used up.
    StoreFull,
}

/// The views of a sequence of benchmarks.
pub open spec fn benchmark_views(v: Seq<Benchmark>) -> Seq<BenchmarkView> {
    v.map_values(|b: Benchmark| b@)
}

/// The index of the first benchmark with the id at or after `from`; the
/// number of benchmarks when there is none.
pub open spec fn benchmark_from(benchmarks: Seq<BenchmarkView>, id: i64, from: int) -> int
    decreases benchmarks.len() - from,
{
    if from < 0 || from >= benchmarks.len() {
        benchmarks.len() as int
    } else if benchmarks[from].id == id {
        from
    } else {
        benchmark_from(benchmarks, id, from + 1)
    }
}

/// Whether jobs are looked through for duplicates: not when the caller
/// forces the queueing, and not when duplicates are allowed.
pub open spec fn checks_duplicates(force: bool, policy: DuplicateHandling) -> bool {
    !force && policy != DuplicateHandling::Allow
}

/// Whether the id cannot be queued: no benchmark has it, or duplicates are
/// looked for and a job of its benchmark waits or runs.
pub open spec fn refused(
    rows: Seq<JobView>,
    benchmarks: Seq<BenchmarkView>,
    id: i64,
    check: bool,
) -> bool {
    let at = benchmark_from(benchmarks, id, 0);
    at >= benchmarks.len() || (check && active_jobs(rows, benchmarks[at].name).len() > 0)
}

/// The index of the first id at or after `from` that cannot be queued; the
/// number of ids when all can.
pub open spec fn first_refused(
    rows: Seq<JobView>,
    benchmarks: Seq<BenchmarkView>,
    ids: Seq<i64>,
    check: bool,
    from: int,
) -> int
    decreases ids.len() - from,
{
    if from < 0 || from >= ids.len() {
        ids.len() as int
    } else if refused(rows, benchmarks, ids[from], check) {
        from
    } else {
        first_refused(rows, benchmarks, ids, check, from + 1)
    }
}

/// The jobs that queueing the ids adds: one for each id, with consecutive
/// ids from `next_id` on and consecutive positions behind `last_position`,
/// all created and queued at `now`.
pub open spec fn new_jobs(
    benchmarks: Seq<BenchmarkView>,
    ids: Seq<i64>,
    project_id: i64,
    next_id: int,
    last_position: int,
    now: Seq<char>,
) -> Seq<JobView> {
    Seq::new(
        ids.len(),
        |k: int|
            fresh_job(
                (next_id + k) as i64,
                project_id,
                benchmarks[benchmark_from(benchmarks, ids[k], 0)].name,
                now,
                Some((last_position + 1 + k) as i64),
                Some(now),
            ),
    )
}

/// What queueing the ids comes to. If one of the ids cannot be queued,
/// nothing is queued, and the error tells of the first such id: that it is
/// unknown, or that it is a duplicate, in the way the policy asks for. If
/// the ids of the table do not suffice, nothing is queued either. Otherwise
/// a job for each id is appended to the table and returned.
pub open spec fn enqueue_outcome(
    before: &JobStore,
    after: &JobStore,
    r: Result<Vec<Job>, EnqueueError>,
    benchmarks: Seq<BenchmarkView>,
    project_id: i64,
    ids: Seq<i64>,
    force: bool,
    policy: DuplicateHandling,
    now: Seq<char>,
) -> bool {
    let check = checks_duplicates(force, policy);
    let at = first_refused(before@, benchmarks, ids, check, 0);
    if at < ids.len() {
        let b = benchmark_from(benchmarks, ids[at], 0);
        &&& after@ == before@
        &&& after.next_id() == before.next_id()
        &&& r is Err
        &&& if b >= benchmarks.len() {
            r->Err_0 matches EnqueueError::UnknownBenchmark { id } && id == ids[at]
        } else if policy == DuplicateHandling::Prevent {
            r->Err_0 matches EnqueueError::Duplicate { name } && name@ == benchmarks[b].name
        } else {
            r->Err_0 matches EnqueueError::DuplicateWarning { name, statuses } && name@
                == benchmarks[b].name && string_views(statuses@) == status_texts(
                statuses_of(active_jobs(before@, benchmarks[b].name)),
            )
        }
    } else if before.next_id() + ids.len() > i64::MAX {
        &&& after@ == before@
        &&& after.next_id() == before.next_id()
        &&& r is Err
        &&& r->Err_0 is StoreFull
    } else {
        let added = new_jobs(
            benchmarks,
            ids,
            project_id,
            before.next_id(),
            max_position(before@),
            now,
        );
        &&& after@ == before@ + added
        &&& after.next_id() == before.next_id() + ids.len()
        &&& r is Ok
        &&& job_views(r->Ok_0@) == added
    }
}

/// Queueing is all or nothing: when it is refused the table is as it was,
/// and when it succeeds the table has one job more for each id.
pub proof fn lemma_enqueue_all_or_nothing(
    before: &JobStore,
    after: &JobStore,
    r: Result<Vec<Job>, EnqueueError>,
    benchmarks: Seq<BenchmarkView>,
    project_id: i64,
    ids: Seq<i64>,
    force: bool,
    policy: DuplicateHandling,
    now: Seq<char>,
)
    requires
        enqueue_outcome(before, after, r, benchmarks, project_id, ids, force, policy, now),
    ensures
        r is Err ==> after@ == before@,
        r is Ok ==> after@.len() == before@.len() + ids.len() && after@.subrange(
            0,
            before@.len() as int,
        ) == before@,
{
    if r is Ok {
        let added = new_jobs(
            benchmarks,
            ids,
            project_id,
            before.next_id(),
            max_position(before@),
            now,
        );
        assert((before@ + added).subrange(0, before@.len() as int) =~= before@);
    }
}

/// An id that cannot be queued makes the first refused id come no later.
pub proof fn lemma_refused_is_found(
    rows: Seq<JobView>,
    benchmarks: Seq<BenchmarkView>,
    ids: Seq<i64>,
    check: bool,
    from: int,
    k: int,
)
    requires
        0 <= from <= k < ids.len(),
        refused(rows, benchmarks, ids[k], check),
    ensures
        from <= first_refused(rows, benchmarks, ids, check, from) <= k,
    decreases k - from,
{
    if from < k && !refused(rows, benchmarks, ids[from], check) {
        lemma_refused_is_found(rows, benchmarks, ids, check, from + 1, k);
    }
}

/// Duplicates are kept out: unless the caller forces it or duplicates are
/// allowed, asking for a benchmark of which a job waits or runs is refused,
/// and no job is added, whatever else is asked for with it. Under the policy
/// `Warn` the refusal comes as a warning that lists the statuses of the jobs
/// in the way; under `Prevent` it names the benchmark.
pub proof fn lemma_duplicates_are_refused(
    before: &JobStore,
    after: &JobStore,
    r: Result<Vec<Job>, EnqueueError>,
    benchmarks: Seq<BenchmarkView>,
    project_id: i64,
    ids: Seq<i64>,
    force: bool,
    policy: DuplicateHandling,
    now: Seq<char>,
    k: int,
)
    requires
        enqueue_outcome(before, after, r, benchmarks, project_id, ids, force, policy, now),
        !force,
        policy != DuplicateHandling::Allow,
        0 <= k < ids.len(),
        benchmark_from(benchmarks, ids[k], 0) < benchmarks.len(),
        active_jobs(before@, benchmarks[benchmark_from(benchmarks, ids[k], 0)].name).len() > 0,
    ensures
        r is Err,
        after@ == before@,
        !(r->Err_0 is StoreFull),
        r->Err_0 is DuplicateWarning ==> policy == DuplicateHandling::Warn,
        r->Err_0 is Duplicate ==> policy == DuplicateHandling::Prevent,
{
    lemma_refused_is_found(before@, benchmarks, ids, true, 0, k);
}

fn find_benchmark(benchmarks: &Vec<Benchmark>, id: i64) -> (at: usize)
    ensures
        at == benchmark_from(benchmark_views(benchmarks@), id, 0),
        at <= benchmarks.len(),
        at < benchmarks.len() ==> benchmarks[at as int].id == id,
{
    let ghost all = benchmark_views(benchmarks@);
    let mut i: usize = 0;
    while i < benchmarks.len()
        invariant
            i <= benchmarks.len(),
            all == benchmark_views(benchmarks@),
            benchmark_from(all, id, 0) == benchmark_from(all, id, i as int),
        decreases benchmarks.len() - i,
    {
        assert(all[i as int] == benchmarks[i as int]@);
        if benchmarks[i].id == id {
            return i;
        }
        i += 1;
    }
    i
}

proof fn lemma_first_refused(
    rows: Seq<JobView>,
    benchmarks: Seq<BenchmarkView>,
    ids: Seq<i64>,
    check: bool,
    from: int,
    at: int,
)
    requires
        0 <= from <= at <= ids.len(),
        forall|j: int| from <= j < at ==> !refused(rows, benchmarks, #[trigger] ids[j], check),
        at < ids.len() ==> refused(rows, benchmarks, ids[at], check),
    ensures
        first_refused(rows, benchmarks, ids, check, from) == at,
    decreases at - from,
{
    if from < at {
        lemma_first_refused(rows, benchmarks, ids, check, from + 1, at);
    }
}

/// Queues a job for each of the benchmarks, in the order of the ids, at the
/// end of the queue; all of them or none.
pub fn queue_benchmarks_at(
    store: &mut JobStore,
    benchmarks: &Vec<Benchmark>,
    project_id: i64,
    benchmark_ids: &Vec<i64>,
    force_duplicate: bool,
    policy: DuplicateHandling,
    now: &str,
) -> (r: Result<Vec<Job>, EnqueueError>)
    requires
        old(store).wf(),
    ensures
        final(store).wf(),
        enqueue_outcome(
            old(store),
            final(store),
            r,
            benchmark_views(benchmarks@),
            project_id,
            benchmark_ids@,
            force_duplicate,
            policy,
            now@,
        ),
{
    let ghost before = store@;
    let ghost all = benchmark_views(benchmarks@);
    let ghost ids = benchmark_ids@;
    let check = !force_duplicate && policy != DuplicateHandling::Allow;
    let mut found: Vec<usize> = Vec::new();
    let mut k: usize = 0;
    while k < benchmark_ids.len()
        invariant
            k <= benchmark_ids.len(),
            store@ == before,
            store.wf(),
            store.next_id() == old(store).next_id(),
            all == benchmark_views(benchmarks@),
            ids == benchmark_ids@,
            check == checks_duplicates(force_duplicate, policy),
            found.len() == k,
            forall|j: int| 0 <= j < k ==> !refused(before, all, #[trigger] ids[j], check),
            forall|j: int|
                0 <= j < k ==> (#[trigger] found@[j]) == benchmark_from(all, ids[j], 0)
                    && found@[j] < benchmarks.len(),
        decreases benchmark_ids.len() - k,
    {
        let id = benchmark_ids[k];
        let at = find_benchmark(benchmarks, id);
        if at >= benchmarks.len() {
            proof {
                lemma_first_refused(before, all, ids, check, 0, k as int);
            }
            return Err(EnqueueError::UnknownBenchmark { id });
        }
        assert(all[at as int] == benchmarks[at as int]@);
        if check {
            let dup = check_duplicate_job(store, benchmarks[at].name.as_str());
            if dup.is_duplicate {
                proof {
                    lemma_first_refused(before, all, ids, check, 0, k as int);
                }
                let name = benchmarks[at].name.clone();
                return match policy {
                    DuplicateHandling::Prevent => Err(EnqueueError::Duplicate { name }),
                    _ => Err(
                        EnqueueError::DuplicateWarning { name, statuses: dup.existing_statuses },
                    ),
                };
            }
        }
        found.push(at);
        k += 1;
    }
    proof {
        lemma_first_refused(before, all, ids, check, 0, ids.len() as int);
    }
    let room: u64 = (i64::MAX - store.next_value()) as u64;
    if benchmark_ids.len() as u64 > room {
        return Err(EnqueueError::StoreFull);
    }
    let ghost next0 = store.next_id();
    let ghost max0 = max_position(before);
    let ghost added = new_jobs(all, ids, project_id, next0, max0, now@);
    let mut last: i64 = get_max_queue_position(store);
    let mut jobs: Vec<Job> = Vec::new();
    let mut k: usize = 0;
    proof {
        assert(store@ =~= before + added.take(0));
        assert(job_views(jobs@) =~= added.take(0));
    }
    while k < benchmark_ids.len()
        invariant
            k <= benchmark_ids.len(),
            store.wf(),
            all == benchmark_views(benchmarks@),
            ids == benchmark_ids@,
            added == new_jobs(all, ids, project_id, next0, max0, now@),
            next0 + ids.len() <= i64::MAX,
            found.len() == ids.len(),
            forall|j: int|
                0 <= j < ids.len() ==> (#[trigger] found@[j]) == benchmark_from(all, ids[j], 0)
                    && found@[j] < benchmarks.len(),
            store@ == before + added.take(k as int),
            store.next_id() == next0 + k,
            last == max_position(store@),
            last == max0 + k,
            job_views(jobs@) == added.take(k as int),
        decreases benchmark_ids.len() - k,
    {
        let at = found[k];
        assert(all[at as int] == benchmarks[at as int]@);
        proof {
            lemma_max_le_len(store@);
            lemma_queue_len_bound(store@);
            if store@.len() > 0 {
                lemma_len_below_ids(store@, store@.len() - 1);
            }
        }
        let id = store.next_value();
        let job = make_job(
            id,
            project_id,
            benchmarks[at].name.as_str(),
            now,
            Some(last + 1),
            Some(now.to_owned()),
        );
        assert(job@ == added[k as int]);
        let ghost jobs_before = job_views(jobs@);
        jobs.push(copy_job(&job));
        append(store, job);
        last = last + 1;
        proof {
            assert(store@ =~= before + added.take(k + 1));
            assert(job_views(jobs@) =~= jobs_before.push(added[k as int]));
            assert(added.take(k + 1) =~= added.take(k as int).push(added[k as int]));
        }
        k += 1;
    }
    proof {
        assert(added.take(k as int) =~= added);
    }
    Ok(jobs)
}

/// Queues a job for each of the benchmarks, in the order of the ids, at the
/// end of the queue; all of them or none. The jobs are created and queued
/// now.
pub fn queue_benchmarks(
    store: &mut JobStore,
    benchmarks: &Vec<Benchmark>,
    project_id: i64,
    benchmark_ids: &Vec<i64>,
    force_duplicate: bool,
    policy: DuplicateHandling,
) -> (r: Result<Vec<Job>, EnqueueError>)
    requires
        old(store).wf(),
    ensures
        final(store).wf(),
        exists|now: Seq<char>| #[trigger]
            enqueue_outcome(
                old(store),
                final(store),
                r,
                benchmark_views(benchmarks@),
                project_id,
                benchmark_ids@,
                force_duplicate,
                policy,
                now,
            ),
{
    let now = now_rfc3339();
    queue_benchmarks_at(
        store,
        benchmarks,
        project_id,
        benchmark_ids,
        force_duplicate,
        policy,
        now.as_str(),
    )
}

impl EnqueueError {
    /// The message of the error.
    pub open spec fn text(self) -> Seq<char> {
        match self {
            EnqueueError::UnknownBenchmark { id } => "Failed to get benchmark by ID: "@
                + crate::numbers::signed_decimal(id as int),
            EnqueueError::Duplicate { name } => name@
                + " is already queued. Duplicates are not allowed."@,
            EnqueueError::DuplicateWarning { name, statuses } => "DUPLICATE_WARNING:"@ + name@
                + ":"@ + join(string_views(statuses@), ","@),
            EnqueueError::StoreFull => "Job table is full"@,
        }
    }

    /// The message of the error.
    pub fn message(&self) -> (s: String)
        ensures
            s@ == self.text(),
    {
        let mut v: Vec<char> = Vec::new();
        match self {
            EnqueueError::UnknownBenchmark { id } => {
                push_str(&mut v, "Failed to get benchmark by ID: ");
                crate::numbers::push_signed_decimal(&mut v, *id);
            },
            EnqueueError::Duplicate { name } => {
                push_str(&mut v, name.as_str());
                push_str(&mut v, " is already queued. Duplicates are not allowed.");
            },
            EnqueueError::DuplicateWarning { name, statuses } => {
                push_str(&mut v, "DUPLICATE_WARNING:");
                push_str(&mut v, name.as_str());
                push_str(&mut v, ":");
                let ghost head = v@;
                let ghost words = string_views(statuses@);
                let mut i: usize = 0;
                while i < statuses.len()
                    invariant
                        i <= statuses.len(),
                        words == string_views(statuses@),
                        v@ == head + join(words.take(i as int), ","@),
                    decreases statuses.len() - i,
                {
                    proof {
                        let next = words.take(i + 1);
                        assert(next.drop_last() =~= words.take(i as int));
                        assert(next.last() == statuses@[i as int]@);
                    }
                    if i > 0 {
                        push_str(&mut v, ",");
                    }
                    push_str(&mut v, statuses[i].as_str());
                    proof {
                        assert(v@ =~= head + join(words.take(i + 1), ","@));
                    }
                    i += 1;
                }
                proof {
                    assert(words.take(i as int) =~= words);
                    assert(head =~= "DUPLICATE_WARNING:"@ + name@ + ":"@);
                }
            },
            EnqueueError::StoreFull => {
                push_str(&mut v, "Job table is full");
            },
        }
        proof {
            assert(v@ =~= self.text());
        }
        string_of(&v)
    }
}

/// Whether the jobs are those that are made for the names at the time
/// `now`: one for each name, pending and outside the queue, with
/// consecutive ids from `next_id` on.
pub open spec fn jobs_created(
    jobs: Seq<Job>,
    next_id: int,
    project_id: i64,
    names: Seq<String>,
    now: Seq<char>,
) -> bool {
    &&& jobs.len() == names.len()
    &&& forall|k: int|
        0 <= k < names.len() ==> (#[trigger] jobs[k])@ == fresh_job(
            (next_id + k) as i64,
            project_id,
            names[k]@,
            now,
            None,
            None,
        )
}

/// Inserts a pending job outside the queue for each of the names, in their
/// order, created at `now`; all of them or none. Refused only when the ids
/// of the table do not suffice.
pub fn queue_jobs_at(store: &mut JobStore, project_id: i64, benchmark_names: &Vec<String>, now: &str) -> (r:
    Option<Vec<Job>>)
    requires
        old(store).wf(),
    ensures
        final(store).wf(),
        r is None == (old(store).next_id() + benchmark_names.len() > i64::MAX),
        r is None ==> final(store)@ == old(store)@ && final(store).next_id() == old(
            store,
        ).next_id(),
        r is Some ==> {
            &&& final(store).next_id() == old(store).next_id() + benchmark_names.len()
            &&& final(store)@ == old(store)@ + job_views(r->0@)
            &&& jobs_created(r->0@, old(store).next_id(), project_id, benchmark_names@, now@)
        },
{
    let ghost before = store@;
    let ghost next0 = store.next_id();
    let room: u64 = (i64::MAX - store.next_value()) as u64;
    if benchmark_names.len() as u64 > room {
        return None;
    }
    let mut jobs: Vec<Job> = Vec::new();
    let mut k: usize = 0;
    proof {
        assert(store@ =~= before + job_views(jobs@));
    }
    while k < benchmark_names.len()
        invariant
            k <= benchmark_names.len(),
            store.wf(),
            next0 + benchmark_names.len() <= i64::MAX,
            store@ == before + job_views(jobs@),
            store.next_id() == next0 + k,
            jobs.len() == k,
            forall|j: int|
                0 <= j < k ==> (#[trigger] jobs@[j])@ == fresh_job(
                    (next0 + j) as i64,
                    project_id,
                    benchmark_names@[j]@,
                    now@,
                    None,
                    None,
                ),
        decreases benchmark_names.len() - k,
    {
        let id = store.next_value();
        let job = make_job(id, project_id, benchmark_names[k].as_str(), now, None, None);
        let ghost jobs_before = job_views(jobs@);
        jobs.push(copy_job(&job));
        append(store, job);
        proof {
            assert(job_views(jobs@) =~= jobs_before.push(jobs@[k as int]@));
            assert(store@ =~= before + job_views(jobs@));
        }
        k += 1;
    }
    Some(jobs)
}

/// Inserts a pending job outside the queue for each of the names, created
/// now; all of them or none. Refused only when the ids of the table do not
/// suffice.
pub fn queue_jobs(store: &mut JobStore, project_id: i64, benchmark_names: &Vec<String>) -> (r:
    Option<Vec<Job>>)
    requires
        old(store).wf(),
    ensures
        final(store).wf(),
        r is None == (old(store).next_id() + benchmark_names.len() > i64::MAX),
        r is None ==> final(store)@ == old(store)@ && final(store).next_id() == old(
            store,
        ).next_id(),
        r is Some ==> {
            &&& final(store).next_id() == old(store).next_id() + benchmark_names.len()
            &&& final(store)@ == old(store)@ + job_views(r->0@)
            &&& exists|now: Seq<char>| #[trigger]
                jobs_created(r->0@, old(store).next_id(), project_id, benchmark_names@, now)
        },
{
    let now = now_rfc3339();
    let r = queue_jobs_at(store, project_id, benchmark_names, now.as_str());
    proof {
        if r is Some {
            assert(jobs_created(r->0@, old(store).next_id(), project_id, benchmark_names@, now@));
        }
    }
    r
}

// ---------------------------------------------------------------------------
// The job at work
// ---------------------------------------------------------------------------

/// What the tail of the log and the state of the session say of the job at
/// work.
#[derive(Debug, Clone)]
pub struct JobReading {
    /// The steps that are finished.
    pub current: u32,
    /// All steps; 0 while the log shows no progress.
    pub total: u32,
    /// The progress as the log shows it, such as `[3/22]`; empty while the
    /// log shows none.
    pub progress_text: String,
    /// Whether the job has ended.
    pub is_finished: bool,
    /// The status of a job that has ended.
    pub status: Option<JobStatus>,
    /// The error of a job that has ended and failed.
    pub error: Option<String>,
}

/// The finished steps and all steps that a log shows; zeros while it shows
/// none.
pub open spec fn progress_or_zero(logs: Seq<char>) -> (u32, u32) {
    match progress_of(logs) {
        Some(p) => p,
        None => (0u32, 0u32),
    }
}

/// The progress in brackets; nothing while the count of all steps is 0.
pub open spec fn progress_label(current: u32, total: u32) -> Seq<char> {
    if total > 0 {
        "["@ + decimal(current as nat) + "/"@ + decimal(total as nat) + "]"@
    } else {
        Seq::empty()
    }
}

/// Reads the state of the job at work from the tail of its log and from
/// whether its session exists. The job has ended when the log shows a mark
/// of the end or the session is gone; it has failed if the log shows a mark
/// of a failure. The error, its last five lines, is reported once the job
/// has ended.
pub fn read_job(logs: &str, session_exists: bool) -> (reading: JobReading)
    ensures
        (reading.current, reading.total) == progress_or_zero(logs@),
        reading.progress_text@ == progress_label(reading.current, reading.total),
        reading.is_finished == (log_verdict(logs@, session_exists) is Ended),
        reading.status == (match log_verdict(logs@, session_exists) {
            Verdict::Ended(status) => Some(status),
            _ => None,
        }),
        reading.error is Some == (reading.is_finished && shows_error(logs@)),
        reading.error is Some ==> reading.error->0@ == tail_of(logs@, 5),
{
    let (current, total) = match parse_progress(logs) {
        Some(p) => p,
        None => (0, 0),
    };
    let mut label: Vec<char> = Vec::new();
    if total > 0 {
        push_str(&mut label, "[");
        push_decimal(&mut label, current as u64);
        push_str(&mut label, "/");
        push_decimal(&mut label, total as u64);
        push_str(&mut label, "]");
        proof {
            assert(label@ =~= progress_label(current, total));
        }
    }
    let finished = detect_job_finished(logs) || !session_exists;
    let error = detect_job_error(logs);
    if finished {
        let status = if error.is_some() {
            JobStatus::Failed
        } else {
            JobStatus::Completed
        };
        JobReading {
            current,
            total,
            progress_text: string_of(&label),
            is_finished: true,
            status: Some(status),
            error,
        }
    } else {
        JobReading {
            current,
            total,
            progress_text: string_of(&label),
            is_finished: false,
            status: None,
            error: None,
        }
    }
}

/// Records what a look at a job has found, at the time `now`. Of a job that
/// has ended, the status, the time, the progress, the log and the error, if
/// there is one, are recorded: all of it or, where the change of status is
/// refused, nothing. Of a job at work the progress is recorded. Without a
/// job of that id nothing happens.
pub fn record_reading_at(
    store: &mut JobStore,
    job_id: i64,
    reading: &JobReading,
    logs: &str,
    now: &str,
) -> (r: Result<(), QueueError>)
    requires
        old(store).wf(),
    ensures
        final(store).wf(),
        final(store).next_id() == old(store).next_id(),
        match reading.status {
            Some(status) => match (r, status_target(old(store)@, job_id, status)) {
                (Ok(()), Ok(Some(idx))) => {
                    let changed = after_leave(
                        old(store)@,
                        idx,
                        with_status(old(store)@[idx], status, now@),
                    );
                    final(store)@ == with_row(
                        changed,
                        job_id,
                        detailed(
                            row_of(changed, job_id),
                            Some((reading.current, reading.total)),
                            Some(logs@),
                            opt_view(reading.error),
                        ),
                    )
                },
                (Ok(()), Ok(None)) => final(store)@ == old(store)@,
                (Err(e), Err(f)) => e == f && final(store)@ == old(store)@,
                _ => false,
            },
            None => r is Ok && final(store)@ == with_row(
                old(store)@,
                job_id,
                JobView {
                    progress_current: reading.current,
                    progress_total: reading.total,
                    ..row_of(old(store)@, job_id)
                },
            ),
        },
{
    match reading.status {
        Some(status) => {
            let error: Option<&str> = match &reading.error {
                Some(e) => Some(e.as_str()),
                None => None,
            };
            record_job_at(
                store,
                job_id,
                status,
                now,
                Some((reading.current, reading.total)),
                Some(logs),
                error,
            )
        },
        None => {
            update_job_progress(store, job_id, reading.current, reading.total);
            Ok(())
        },
    }
}

// ---------------------------------------------------------------------------
// The state of the queue
// ---------------------------------------------------------------------------

/// The state of the queue and how many jobs there are of each kind.
#[derive(Debug, Clone, Copy, PartialEq, Eq, Structural)]
pub struct QueueStatus {
    pub state: QueueState,
    pub current_job_id: Option<i64>,
    pub pending_count: usize,
    pub running_count: usize,
    pub completed_count: usize,
}

/// The state of the queue and the numbers of pending, running and completed
/// jobs.
pub fn get_queue_status(manager: &QueueManager, store: &JobStore) -> (status: QueueStatus)
    ensures
        status.state == manager.state(),
        status.current_job_id == manager.current(),
        status.pending_count == chosen(store@, JobFilter::Pending).len(),
        status.running_count == chosen(store@, JobFilter::Running).len(),
        status.completed_count == chosen(store@, JobFilter::Completed).len(),
{
    QueueStatus {
        state: manager.get_state(),
        current_job_id: manager.current_job(),
        pending_count: count_jobs(store, JobFilter::Pending),
        running_count: count_jobs(store, JobFilter::Running),
        completed_count: count_jobs(store, JobFilter::Completed),
    }
}

} // verus!
