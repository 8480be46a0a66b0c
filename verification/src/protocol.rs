//! Running one job from start to end: the steps, what each step does, what
//! follows on its outcome, and how the end of the job is told from what the
//! remote machine shows.
//!
//! The steps are taken elsewhere; here stands which step comes next. A step
//! is entered, its action is performed, and the outcome of the action
//! decides on the next step.

use vstd::prelude::*;
use crate::job::{shows_error, shows_finish};
use crate::lines::trim;
use crate::queue_service::{parse_sql_output, status_row};
use crate::state::JobStatus;
use crate::text::concat3;

verus! {

// ---------------------------------------------------------------------------
// Telling the end of a job
// ---------------------------------------------------------------------------

/// What one look at a job says.
#[derive(Debug, Clone, Copy, PartialEq, Eq, Structural)]
pub enum Verdict {
    /// The look failed: nothing is known, and the job is looked at again.
    Retry,
    /// The job is at work.
    Running,
    /// The job has ended, with this status.
    Ended(JobStatus),
}

/// What was read of a job in one look. A reading that could not be made is
/// `None`.
#[derive(Debug, Clone)]
pub enum Signal {
    /// The tail of the log of the job, and whether its session exists.
    Log { logs: Option<String>, session_exists: Option<bool> },
    /// The row of the job in the remote status table, as printed.
    StatusRow { output: Option<String> },
}

/// What the tail of a log and the state of the session say. The job has
/// ended when the log shows a mark of the end, or when the session is gone.
/// It has failed if the log shows a mark of a failure, and is completed if
/// not.
pub open spec fn log_verdict(logs: Seq<char>, session_exists: bool) -> Verdict {
    if shows_finish(logs) || !session_exists {
        if shows_error(logs) {
            Verdict::Ended(JobStatus::Failed)
        } else {
            Verdict::Ended(JobStatus::Completed)
        }
    } else {
        Verdict::Running
    }
}

/// What a status row says. The job has ended when the row says `completed`
/// or `failed`; with any other row, or none, it is at work.
pub open spec fn row_verdict(output: Seq<char>) -> Verdict {
    match status_row(output) {
        Some((status, _, _)) => if status == "completed"@ {
            Verdict::Ended(JobStatus::Completed)
        } else if status == "failed"@ {
            Verdict::Ended(JobStatus::Failed)
        } else {
            Verdict::Running
        },
        None => Verdict::Running,
    }
}

/// What a look at a job says. A look of which a reading failed says nothing:
/// the job is looked at again.
pub open spec fn verdict_of(signal: Signal) -> Verdict {
    match signal {
        Signal::Log { logs: Some(logs), session_exists: Some(exists) } => log_verdict(
            logs@,
            exists,
        ),
        Signal::StatusRow { output: Some(output) } => row_verdict(output@),
        _ => Verdict::Retry,
    }
}

/// What a look at a job says.
pub fn detect(signal: &Signal) -> (verdict: Verdict)
    ensures
        verdict == verdict_of(*signal),
{
    match signal {
        Signal::Log { logs: Some(logs), session_exists: Some(exists) } => {
            if crate::job::detect_job_finished(logs.as_str()) || !*exists {
                if crate::job::detect_job_error(logs.as_str()).is_some() {
                    Verdict::Ended(JobStatus::Failed)
                } else {
                    Verdict::Ended(JobStatus::Completed)
                }
            } else {
                Verdict::Running
            }
        },
        Signal::StatusRow { output: Some(output) } => {
            match parse_sql_output(output.as_str()) {
                Some((status, _, _)) => {
                    if crate::text::str_eq(status.as_str(), "completed") {
                        Verdict::Ended(JobStatus::Completed)
                    } else if crate::text::str_eq(status.as_str(), "failed") {
                        Verdict::Ended(JobStatus::Failed)
                    } else {
                        Verdict::Running
                    }
                },
                None => Verdict::Running,
            }
        },
        _ => Verdict::Retry,
    }
}

/// A look never ends a job otherwise than as completed or failed: a job is
/// killed by the user alone, and a look that failed ends nothing.
pub proof fn lemma_verdict_ends(signal: Signal)
    ensures
        verdict_of(signal) matches Verdict::Ended(status) ==> status == JobStatus::Completed
            || status == JobStatus::Failed,
        ({
            ||| signal matches Signal::Log { logs: None, .. }
            ||| signal matches Signal::Log { session_exists: None, .. }
            ||| signal matches Signal::StatusRow { output: None }
        }) ==> verdict_of(signal) == Verdict::Retry,
{
}

// ---------------------------------------------------------------------------
// The steps
// ---------------------------------------------------------------------------

/// What went wrong when a job could not be run.
#[derive(Debug, Clone, Copy, PartialEq, Eq, Structural)]
pub enum Fault {
    StatusUpdate,
    WrapperCheck,
    WrapperDirectory,
    WrapperWrite,
    WrapperPermission,
    DatabaseDirectory,
    DatabaseSetup,
    DatabasePermission,
    VersionRecord,
    FileSync,
    SessionStart,
}

/// A step of running a job.
#[derive(Debug, Clone, Copy, PartialEq, Eq, Structural)]
pub enum Stage {
    /// The job is recorded as running, before anything is done remotely.
    MarkRunning,
    /// Is the job wrapper installed?
    CheckWrapper,
    /// The directory of the wrapper is made.
    MakeWrapperDirectory,
    /// The wrapper is written.
    WriteWrapper,
    /// The wrapper is made executable.
    AllowWrapper,
    /// What a failed deployment left behind is taken away.
    CleanUp(Fault),
    /// The directory of the status database is made.
    MakeDatabaseDirectory,
    /// The status database is set up.
    SetUpDatabase,
    /// The status database is kept to its owner.
    ProtectDatabase,
    /// The version of the wrapper is recorded.
    RecordVersion,
    /// The files of the project are mirrored.
    SyncFiles,
    /// Is there a session of the name already?
    CheckSession,
    /// The session of the name is ended.
    KillSession,
    /// The session of the job is started.
    Launch,
    /// The name of the session is noted in the log of the job.
    NoteSession,
    /// The job is looked at, again and again.
    Poll,
    /// The job has ended with this status.
    Done(JobStatus),
    /// The job could not be run.
    Failed(Fault),
}

/// What a step does.
#[derive(Debug, Clone, Copy, PartialEq, Eq, Structural)]
pub enum ActionKind {
    /// Record the job as running, with its start time.
    PersistRunning,
    /// Run the command of the step on the remote machine.
    RunCommand,
    /// Mirror the files of the project.
    Sync,
    /// Note the session in the log of the job.
    PersistNote,
    /// Wait for the polling interval, then look at the job.
    WaitAndLook,
    /// Record the end of the job.
    PersistEnd,
    /// Record that the job failed, with the error.
    PersistFailure,
}

/// How the action of a step went.
#[derive(Debug, Clone)]
pub enum Event {
    /// The action succeeded, with this output.
    Succeeded(String),
    /// The action failed.
    Failed,
    /// The job was looked at.
    Looked(Verdict),
}

/// The seconds between two looks at a job.
pub const POLL_INTERVAL_SECS: u64 = 2;

/// The first step.
pub open spec fn first_stage() -> Stage {
    Stage::MarkRunning
}

/// Whether nothing follows the step.
pub open spec fn is_over(stage: Stage) -> bool {
    stage is Done || stage is Failed
}

/// What the step does.
pub open spec fn action_of(stage: Stage) -> ActionKind {
    match stage {
        Stage::MarkRunning => ActionKind::PersistRunning,
        Stage::SyncFiles => ActionKind::Sync,
        Stage::NoteSession => ActionKind::PersistNote,
        Stage::Poll => ActionKind::WaitAndLook,
        Stage::Done(_) => ActionKind::PersistEnd,
        Stage::Failed(_) => ActionKind::PersistFailure,
        _ => ActionKind::RunCommand,
    }
}

/// The step that follows when the action of a step has failed.
pub open spec fn after_failure(stage: Stage) -> Stage {
    match stage {
        Stage::MarkRunning => Stage::Failed(Fault::StatusUpdate),
        Stage::CheckWrapper => Stage::Failed(Fault::WrapperCheck),
        Stage::MakeWrapperDirectory => Stage::Failed(Fault::WrapperDirectory),
        Stage::WriteWrapper => Stage::CleanUp(Fault::WrapperWrite),
        Stage::AllowWrapper => Stage::CleanUp(Fault::WrapperPermission),
        Stage::CleanUp(fault) => Stage::Failed(fault),
        Stage::MakeDatabaseDirectory => Stage::Failed(Fault::DatabaseDirectory),
        Stage::SetUpDatabase => Stage::Failed(Fault::DatabaseSetup),
        Stage::ProtectDatabase => Stage::Failed(Fault::DatabasePermission),
        Stage::RecordVersion => Stage::Failed(Fault::VersionRecord),
        Stage::SyncFiles => Stage::Failed(Fault::FileSync),
        Stage::CheckSession => Stage::Launch,
        Stage::KillSession => Stage::Launch,
        Stage::Launch => Stage::Failed(Fault::SessionStart),
        Stage::NoteSession => Stage::Poll,
        Stage::Poll => Stage::Poll,
        Stage::Done(status) => Stage::Done(status),
        Stage::Failed(fault) => Stage::Failed(fault),
    }
}

/// The step that follows when the action of a step has succeeded with the
/// output.
pub open spec fn after_success(stage: Stage, output: Seq<char>) -> Stage {
    match stage {
        Stage::MarkRunning => Stage::CheckWrapper,
        Stage::CheckWrapper => if trim(output) == "installed"@ {
            Stage::SyncFiles
        } else {
            Stage::MakeWrapperDirectory
        },
        Stage::MakeWrapperDirectory => Stage::WriteWrapper,
        Stage::WriteWrapper => Stage::AllowWrapper,
        Stage::AllowWrapper => Stage::MakeDatabaseDirectory,
        Stage::CleanUp(fault) => Stage::Failed(fault),
        Stage::MakeDatabaseDirectory => Stage::SetUpDatabase,
        Stage::SetUpDatabase => Stage::ProtectDatabase,
        Stage::ProtectDatabase => Stage::RecordVersion,
        Stage::RecordVersion => Stage::SyncFiles,
        Stage::SyncFiles => Stage::CheckSession,
        Stage::CheckSession => Stage::KillSession,
        Stage::KillSession => Stage::Launch,
        Stage::Launch => Stage::NoteSession,
        Stage::NoteSession => Stage::Poll,
        Stage::Poll => Stage::Poll,
        Stage::Done(status) => Stage::Done(status),
        Stage::Failed(fault) => Stage::Failed(fault),
    }
}

/// The step that follows when the job was looked at during a step. Only
/// while polling does a look count: a job that has ended is done, and every
/// other look leads to the next one.
pub open spec fn after_look(stage: Stage, verdict: Verdict) -> Stage {
    match (stage, verdict) {
        (Stage::Poll, Verdict::Ended(status)) => if status == JobStatus::Failed {
            Stage::Done(JobStatus::Failed)
        } else {
            Stage::Done(JobStatus::Completed)
        },
        _ => stage,
    }
}

/// The step that follows a step on an event.
pub open spec fn next_stage(stage: Stage, event: Event) -> Stage {
    match event {
        Event::Succeeded(output) => after_success(stage, output@),
        Event::Failed => after_failure(stage),
        Event::Looked(verdict) => after_look(stage, verdict),
    }
}

impl Stage {
    /// The first step of running a job.
    pub fn first() -> (stage: Stage)
        ensures
            stage == first_stage(),
    {
        Stage::MarkRunning
    }

    /// Whether nothing follows the step.
    pub fn over(&self) -> (b: bool)
        ensures
            b == is_over(*self),
    {
        match self {
            Stage::Done(_) | Stage::Failed(_) => true,
            _ => false,
        }
    }

    /// What the step does.
    pub fn action(&self) -> (kind: ActionKind)
        ensures
            kind == action_of(*self),
    {
        match self {
            Stage::MarkRunning => ActionKind::PersistRunning,
            Stage::SyncFiles => ActionKind::Sync,
            Stage::NoteSession => ActionKind::PersistNote,
            Stage::Poll => ActionKind::WaitAndLook,
            Stage::Done(_) => ActionKind::PersistEnd,
            Stage::Failed(_) => ActionKind::PersistFailure,
            _ => ActionKind::RunCommand,
        }
    }

    /// The step that follows on the event.
    pub fn advance(&self, event: &Event) -> (next: Stage)
        ensures
            next == next_stage(*self, *event),
    {
        match event {
            Event::Succeeded(output) => match self {
                Stage::MarkRunning => Stage::CheckWrapper,
                Stage::CheckWrapper => {
                    if crate::wrapper::is_installed(output.as_str()) {
                        Stage::SyncFiles
                    } else {
                        Stage::MakeWrapperDirectory
                    }
                },
                Stage::MakeWrapperDirectory => Stage::WriteWrapper,
                Stage::WriteWrapper => Stage::AllowWrapper,
                Stage::AllowWrapper => Stage::MakeDatabaseDirectory,
                Stage::CleanUp(fault) => Stage::Failed(*fault),
                Stage::MakeDatabaseDirectory => Stage::SetUpDatabase,
                Stage::SetUpDatabase => Stage::ProtectDatabase,
                Stage::ProtectDatabase => Stage::RecordVersion,
                Stage::RecordVersion => Stage::SyncFiles,
                Stage::SyncFiles => Stage::CheckSession,
                Stage::CheckSession => Stage::KillSession,
                Stage::KillSession => Stage::Launch,
                Stage::Launch => Stage::NoteSession,
                Stage::NoteSession => Stage::Poll,
                Stage::Poll => Stage::Poll,
                Stage::Done(status) => Stage::Done(*status),
                Stage::Failed(fault) => Stage::Failed(*fault),
            },
            Event::Failed => match self {
                Stage::MarkRunning => Stage::Failed(Fault::StatusUpdate),
                Stage::CheckWrapper => Stage::Failed(Fault::WrapperCheck),
                Stage::MakeWrapperDirectory => Stage::Failed(Fault::WrapperDirectory),
                Stage::WriteWrapper => Stage::CleanUp(Fault::WrapperWrite),
                Stage::AllowWrapper => Stage::CleanUp(Fault::WrapperPermission),
                Stage::CleanUp(fault) => Stage::Failed(*fault),
                Stage::MakeDatabaseDirectory => Stage::Failed(Fault::DatabaseDirectory),
                Stage::SetUpDatabase => Stage::Failed(Fault::DatabaseSetup),
                Stage::ProtectDatabase => Stage::Failed(Fault::DatabasePermission),
                Stage::RecordVersion => Stage::Failed(Fault::VersionRecord),
                Stage::SyncFiles => Stage::Failed(Fault::FileSync),
                Stage::CheckSession => Stage::Launch,
                Stage::KillSession => Stage::Launch,
                Stage::Launch => Stage::Failed(Fault::SessionStart),
                Stage::NoteSession => Stage::Poll,
                Stage::Poll => Stage::Poll,
                Stage::Done(status) => Stage::Done(*status),
                Stage::Failed(fault) => Stage::Failed(*fault),
            },
            Event::Looked(verdict) => match self {
                Stage::Poll => match verdict {
                    Verdict::Ended(status) => match status {
                        JobStatus::Failed => Stage::Done(JobStatus::Failed),
                        _ => Stage::Done(JobStatus::Completed),
                    },
                    _ => Stage::Poll,
                },
                _ => *self,
            },
        }
    }
}

impl Fault {
    /// What is said of the fault, before the error that caused it.
    pub open spec fn text(self) -> Seq<char> {
        match self {
            Fault::StatusUpdate => "Failed to update job status"@,
            Fault::WrapperCheck => "Failed to check wrapper installation"@,
            Fault::WrapperDirectory => "Failed to create wrapper directory"@,
            Fault::WrapperWrite => "Failed to write wrapper script"@,
            Fault::WrapperPermission => "Failed to make wrapper executable"@,
            Fault::DatabaseDirectory => "Failed to create server directory"@,
            Fault::DatabaseSetup => "Failed to initialize server database"@,
            Fault::DatabasePermission => "Failed to set database permissions"@,
            Fault::VersionRecord => "Failed to update wrapper version"@,
            Fault::FileSync => "Failed to sync project files"@,
            Fault::SessionStart => "Failed to create tmux session"@,
        }
    }

    /// What is said of the fault, before the error that caused it.
    pub fn as_str(&self) -> (s: &'static str)
        ensures
            s@ == self.text(),
    {
        match self {
            Fault::StatusUpdate => "Failed to update job status",
            Fault::WrapperCheck => "Failed to check wrapper installation",
            Fault::WrapperDirectory => "Failed to create wrapper directory",
            Fault::WrapperWrite => "Failed to write wrapper script",
            Fault::WrapperPermission => "Failed to make wrapper executable",
            Fault::DatabaseDirectory => "Failed to create server directory",
            Fault::DatabaseSetup => "Failed to initialize server database",
            Fault::DatabasePermission => "Failed to set database permissions",
            Fault::VersionRecord => "Failed to update wrapper version",
            Fault::FileSync => "Failed to sync project files",
            Fault::SessionStart => "Failed to create tmux session",
        }
    }

    /// The error text of a job that could not be run: the fault, and the
    /// error that caused it.
    pub fn message(&self, cause: &str) -> (s: String)
        ensures
            s@ == self.text() + ": "@ + cause@,
    {
        concat3(self.as_str(), ": ", cause)
    }
}

// ---------------------------------------------------------------------------
// What holds of every run
// ---------------------------------------------------------------------------

/// Nothing is done remotely before the job is recorded as running: the
/// first step records it, and no other step does.
pub proof fn lemma_running_is_recorded_first(stage: Stage)
    ensures
        action_of(first_stage()) == ActionKind::PersistRunning,
        action_of(stage) == ActionKind::PersistRunning ==> stage == first_stage(),
{
}

/// While a job is polled, nothing but a look that finds it ended ends the
/// polling: a failed look, a failed command or a look that finds the job at
/// work all lead to the next look.
pub proof fn lemma_polling_survives_failures(event: Event)
    ensures
        !(event matches Event::Looked(Verdict::Ended(_))) ==> next_stage(Stage::Poll, event)
            == Stage::Poll,
        event matches Event::Looked(Verdict::Ended(status)) ==> next_stage(Stage::Poll, event)
            is Done,
{
}

/// A job ends as completed or as failed, whatever happens: no step ends it
/// as killed, and none puts it back to pending or running.
pub proof fn lemma_end_is_completed_or_failed(stage: Stage, event: Event)
    requires
        !(stage is Done),
    ensures
        next_stage(stage, event) matches Stage::Done(status) ==> status == JobStatus::Completed
            || status == JobStatus::Failed,
{
}

/// A step that is over stays as it is.
pub proof fn lemma_over_is_final(stage: Stage, event: Event)
    requires
        is_over(stage),
    ensures
        next_stage(stage, event) == stage,
{
}

/// Before the job is polled, a failed action ends the run as failed, at once
/// or after the clean-up of a half-deployed wrapper. The exceptions are the
/// look for an old session and its removal, whose failure only means that
/// there was none, and the note in the log.
pub proof fn lemma_failures_are_recorded(stage: Stage)
    requires
        !is_over(stage),
        stage != Stage::Poll,
        stage != Stage::CheckSession,
        stage != Stage::KillSession,
        stage != Stage::NoteSession,
    ensures
        after_failure(stage) is Failed || (after_failure(stage) is CleanUp && after_failure(
            after_failure(stage),
        ) is Failed),
{
}

/// The job is launched only with the wrapper in place: from the check of
/// the wrapper the files are mirrored only if the wrapper is installed or
/// has just been deployed completely.
pub proof fn lemma_no_sync_without_wrapper(stage: Stage, event: Event)
    requires
        next_stage(stage, event) == Stage::SyncFiles,
        stage != Stage::SyncFiles,
    ensures
        stage == Stage::CheckWrapper || stage == Stage::RecordVersion,
        event is Succeeded,
        stage == Stage::CheckWrapper ==> trim(event->Succeeded_0@) == "installed"@,
{
}

} // verus!
