use solver_pilot::protocol::{detect, ActionKind, Event, Fault, Signal, Stage, Verdict};
use solver_pilot::state::JobStatus;

fn ok(s: &str) -> Event {
    Event::Succeeded(s.to_string())
}

#[test]
fn a_run_without_trouble() {
    let mut stage = Stage::first();
    let mut seen = vec![stage];
    let events = [
        ok(""),
        ok("installed\n"),
        ok(""),
        Event::Failed,
        ok(""),
        ok(""),
        Event::Looked(Verdict::Running),
        Event::Looked(Verdict::Retry),
        Event::Failed,
        Event::Looked(Verdict::Ended(JobStatus::Completed)),
    ];
    for e in events.iter() {
        stage = stage.advance(e);
        seen.push(stage);
    }
    assert_eq!(
        seen,
        vec![
            Stage::MarkRunning,
            Stage::CheckWrapper,
            Stage::SyncFiles,
            Stage::CheckSession,
            Stage::Launch,
            Stage::NoteSession,
            Stage::Poll,
            Stage::Poll,
            Stage::Poll,
            Stage::Poll,
            Stage::Done(JobStatus::Completed),
        ]
    );
    assert!(stage.over());
    assert_eq!(stage.action(), ActionKind::PersistEnd);
    assert_eq!(stage.advance(&Event::Failed), stage);
}

#[test]
fn the_wrapper_is_deployed_when_it_is_missing() {
    let mut stage = Stage::CheckWrapper;
    let mut seen = Vec::new();
    for _ in 0..8 {
        stage = stage.advance(&ok("missing"));
        seen.push(stage);
    }
    assert_eq!(
        seen,
        vec![
            Stage::MakeWrapperDirectory,
            Stage::WriteWrapper,
            Stage::AllowWrapper,
            Stage::MakeDatabaseDirectory,
            Stage::SetUpDatabase,
            Stage::ProtectDatabase,
            Stage::RecordVersion,
            Stage::SyncFiles,
        ]
    );
    for s in seen.iter().take(7) {
        assert_eq!(s.action(), ActionKind::RunCommand);
    }
}

#[test]
fn failures_end_the_run() {
    let cases = [
        (Stage::MarkRunning, Stage::Failed(Fault::StatusUpdate)),
        (Stage::CheckWrapper, Stage::Failed(Fault::WrapperCheck)),
        (Stage::MakeWrapperDirectory, Stage::Failed(Fault::WrapperDirectory)),
        (Stage::WriteWrapper, Stage::CleanUp(Fault::WrapperWrite)),
        (Stage::AllowWrapper, Stage::CleanUp(Fault::WrapperPermission)),
        (Stage::MakeDatabaseDirectory, Stage::Failed(Fault::DatabaseDirectory)),
        (Stage::SetUpDatabase, Stage::Failed(Fault::DatabaseSetup)),
        (Stage::ProtectDatabase, Stage::Failed(Fault::DatabasePermission)),
        (Stage::RecordVersion, Stage::Failed(Fault::VersionRecord)),
        (Stage::SyncFiles, Stage::Failed(Fault::FileSync)),
        (Stage::CheckSession, Stage::Launch),
        (Stage::KillSession, Stage::Launch),
        (Stage::Launch, Stage::Failed(Fault::SessionStart)),
        (Stage::NoteSession, Stage::Poll),
        (Stage::Poll, Stage::Poll),
    ];
    for (from, to) in cases {
        assert_eq!(from.advance(&Event::Failed), to, "{from:?}");
    }
    let cleaning = Stage::CleanUp(Fault::WrapperWrite);
    assert_eq!(cleaning.action(), ActionKind::RunCommand);
    assert_eq!(cleaning.advance(&ok("")), Stage::Failed(Fault::WrapperWrite));
    assert_eq!(cleaning.advance(&Event::Failed), Stage::Failed(Fault::WrapperWrite));
    assert_eq!(Stage::Failed(Fault::FileSync).action(), ActionKind::PersistFailure);
    assert_eq!(Stage::CheckSession.advance(&ok("")), Stage::KillSession);
    assert_eq!(
        Stage::Poll.advance(&Event::Looked(Verdict::Ended(JobStatus::Failed))),
        Stage::Done(JobStatus::Failed)
    );
    assert_eq!(
        Stage::Poll.advance(&Event::Looked(Verdict::Ended(JobStatus::Killed))),
        Stage::Done(JobStatus::Completed)
    );
    assert_eq!(
        Stage::Launch.advance(&Event::Looked(Verdict::Ended(JobStatus::Failed))),
        Stage::Launch
    );
}

#[test]
fn fault_messages() {
    assert_eq!(
        Fault::FileSync.message("rsync failed: x"),
        "Failed to sync project files: rsync failed: x"
    );
    assert_eq!(
        Fault::SessionStart.message("e"),
        "Failed to create tmux session: e"
    );
    assert_eq!(Fault::StatusUpdate.as_str(), "Failed to update job status");
    assert_eq!(Fault::WrapperWrite.as_str(), "Failed to write wrapper script");
}

fn log(logs: Option<&str>, session: Option<bool>) -> Signal {
    Signal::Log { logs: logs.map(String::from), session_exists: session }
}

fn row(output: Option<&str>) -> Signal {
    Signal::StatusRow { output: output.map(String::from) }
}

#[test]
fn verdicts_from_the_log() {
    assert_eq!(detect(&log(Some("[1/2] working"), Some(true))), Verdict::Running);
    assert_eq!(
        detect(&log(Some("Total: 2"), Some(true))),
        Verdict::Ended(JobStatus::Completed)
    );
    assert_eq!(
        detect(&log(Some("[1/2] working"), Some(false))),
        Verdict::Ended(JobStatus::Completed)
    );
    assert_eq!(
        detect(&log(Some("Error: x\nTotal: 2"), Some(true))),
        Verdict::Ended(JobStatus::Failed)
    );
    assert_eq!(detect(&log(Some("Error: x"), Some(true))), Verdict::Running);
    assert_eq!(
        detect(&log(Some("Error: x"), Some(false))),
        Verdict::Ended(JobStatus::Failed)
    );
    assert_eq!(detect(&log(None, Some(false))), Verdict::Retry);
    assert_eq!(detect(&log(Some("Total: 2"), None)), Verdict::Retry);
    assert_eq!(detect(&log(None, None)), Verdict::Retry);
}

#[test]
fn verdicts_from_the_status_row() {
    assert_eq!(
        detect(&row(Some("completed|0|2026-01-11T14:23:45Z"))),
        Verdict::Ended(JobStatus::Completed)
    );
    assert_eq!(detect(&row(Some("failed|1|t\n"))), Verdict::Ended(JobStatus::Failed));
    assert_eq!(detect(&row(Some("running||"))), Verdict::Running);
    assert_eq!(detect(&row(Some("queued||"))), Verdict::Running);
    assert_eq!(detect(&row(Some("killed|137|t"))), Verdict::Running);
    assert_eq!(detect(&row(Some(""))), Verdict::Running);
    assert_eq!(detect(&row(None)), Verdict::Retry);
}
