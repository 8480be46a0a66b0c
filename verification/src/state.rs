//! The records that the scheduler keeps: projects, benchmarks and jobs.

use vstd::prelude::*;

verus! {

/// Where a job stands in its life.
#[derive(Debug, Clone, Copy, PartialEq, Eq, Structural)]
pub enum JobStatus {
    Pending,
    Running,
    Completed,
    Failed,
    Killed,
}

impl JobStatus {
    /// A job in a terminal status is over: completed, failed or killed.
    pub open spec fn terminal(self) -> bool {
        self == JobStatus::Completed || self == JobStatus::Failed || self == JobStatus::Killed
    }

    /// How far along its life a status is: waiting, at work, over.
    pub open spec fn stage(self) -> int {
        match self {
            JobStatus::Pending => 0,
            JobStatus::Running => 1,
            _ => 2,
        }
    }

    /// A job only moves forward: from waiting to running or straight to a
    /// terminal status, and from running to a terminal status. Nothing comes
    /// back to `Pending`, and what is over stays as it is.
    pub open spec fn may_become(self, next: JobStatus) -> bool {
        self.stage() < next.stage()
    }

    /// The place of a status in a queue listing: the running job first, then
    /// the waiting ones, then completed, failed and killed jobs.
    pub open spec fn rank(self) -> int {
        match self {
            JobStatus::Running => 1,
            JobStatus::Pending => 2,
            JobStatus::Completed => 3,
            JobStatus::Failed => 4,
            JobStatus::Killed => 5,
        }
    }

    /// Whether the status is terminal.
    pub fn is_terminal(self) -> (b: bool)
        ensures
            b == self.terminal(),
    {
        match self {
            JobStatus::Completed | JobStatus::Failed | JobStatus::Killed => true,
            _ => false,
        }
    }

    /// Whether a job in this status may take the status `next`.
    pub fn can_become(self, next: JobStatus) -> (b: bool)
        ensures
            b == self.may_become(next),
    {
        match self {
            JobStatus::Pending => match next {
                JobStatus::Pending => false,
                _ => true,
            },
            JobStatus::Running => next.is_terminal(),
            _ => false,
        }
    }

    /// The place of the status in a queue listing.
    pub fn listing_rank(self) -> (r: u8)
        ensures
            r == self.rank(),
    {
        match self {
            JobStatus::Running => 1,
            JobStatus::Pending => 2,
            JobStatus::Completed => 3,
            JobStatus::Failed => 4,
            JobStatus::Killed => 5,
        }
    }
}

/// A project with its Python environment.
#[derive(Debug, Clone)]
pub struct Project {
    pub id: i64,
    pub name: String,
    pub python_version: String,
    pub created_at: String,
    pub updated_at: String,
}

/// What a `Project` holds, as plain values.
pub struct ProjectView {
    pub id: i64,
    pub name: Seq<char>,
    pub python_version: Seq<char>,
    pub created_at: Seq<char>,
    pub updated_at: Seq<char>,
}

impl View for Project {
    type V = ProjectView;

    open spec fn view(&self) -> ProjectView {
        ProjectView {
            id: self.id,
            name: self.name@,
            python_version: self.python_version@,
            created_at: self.created_at@,
            updated_at: self.updated_at@,
        }
    }
}

/// A benchmark: a Python file, known by its absolute path.
#[derive(Debug, Clone)]
pub struct Benchmark {
    pub id: i64,
    pub project_id: i64,
    pub name: String,
    pub path: String,
    pub created_at: String,
}

/// What a `Benchmark` holds, as plain values.
pub struct BenchmarkView {
    pub id: i64,
    pub project_id: i64,
    pub name: Seq<char>,
    pub path: Seq<char>,
    pub created_at: Seq<char>,
}

impl View for Benchmark {
    type V = BenchmarkView;

    open spec fn view(&self) -> BenchmarkView {
        BenchmarkView {
            id: self.id,
            project_id: self.project_id,
            name: self.name@,
            path: self.path@,
            created_at: self.created_at@,
        }
    }
}

/// One run of a benchmark.
#[derive(Debug, Clone)]
pub struct Job {
    pub id: i64,
    pub project_id: Option<i64>,
    pub benchmark_name: String,
    pub status: JobStatus,
    pub created_at: String,
    pub started_at: Option<String>,
    pub finished_at: Option<String>,
    pub progress_current: u32,
    pub progress_total: u32,
    pub results_path: Option<String>,
    pub error_message: Option<String>,
    pub log_content: String,
    pub queue_position: Option<i64>,
    pub queued_at: Option<String>,
}

/// What a `Job` holds, as plain values.
pub struct JobView {
    pub id: i64,
    pub project_id: Option<i64>,
    pub benchmark_name: Seq<char>,
    pub status: JobStatus,
    pub created_at: Seq<char>,
    pub started_at: Option<Seq<char>>,
    pub finished_at: Option<Seq<char>>,
    pub progress_current: u32,
    pub progress_total: u32,
    pub results_path: Option<Seq<char>>,
    pub error_message: Option<Seq<char>>,
    pub log_content: Seq<char>,
    pub queue_position: Option<i64>,
    pub queued_at: Option<Seq<char>>,
}

/// The characters of an optional string.
pub open spec fn opt_view(s: Option<String>) -> Option<Seq<char>> {
    match s {
        Some(s) => Some(s@),
        None => None,
    }
}

impl View for Job {
    type V = JobView;

    open spec fn view(&self) -> JobView {
        JobView {
            id: self.id,
            project_id: self.project_id,
            benchmark_name: self.benchmark_name@,
            status: self.status,
            created_at: self.created_at@,
            started_at: opt_view(self.started_at),
            finished_at: opt_view(self.finished_at),
            progress_current: self.progress_current,
            progress_total: self.progress_total,
            results_path: opt_view(self.results_path),
            error_message: opt_view(self.error_message),
            log_content: self.log_content@,
            queue_position: self.queue_position,
            queued_at: opt_view(self.queued_at),
        }
    }
}

/// The views of a sequence of jobs.
pub open spec fn job_views(v: Seq<Job>) -> Seq<JobView> {
    v.map_values(|j: Job| j@)
}

/// A copy of an optional string.
pub fn copy_opt(s: &Option<String>) -> (out: Option<String>)
    ensures
        opt_view(out) == opt_view(*s),
{
    match s {
        Some(s) => Some(s.clone()),
        None => None,
    }
}

/// A copy of `job`.
pub fn copy_job(job: &Job) -> (out: Job)
    ensures
        out@ == job@,
{
    Job {
        id: job.id,
        project_id: job.project_id,
        benchmark_name: job.benchmark_name.clone(),
        status: job.status,
        created_at: job.created_at.clone(),
        started_at: copy_opt(&job.started_at),
        finished_at: copy_opt(&job.finished_at),
        progress_current: job.progress_current,
        progress_total: job.progress_total,
        results_path: copy_opt(&job.results_path),
        error_message: copy_opt(&job.error_message),
        log_content: job.log_content.clone(),
        queue_position: job.queue_position,
        queued_at: copy_opt(&job.queued_at),
    }
}

/// Whether the local files of a project match the remote copy.
#[derive(Debug, Clone)]
pub enum SyncStatus {
    Checking,
    UpToDate,
    Modified { count: usize, files: Vec<String> },
    Syncing,
    Error { message: String },
}

} // verus!
