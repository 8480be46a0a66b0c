use solver_pilot::commands::{
    get_queue_status, queue_benchmarks, queue_benchmarks_at, queue_jobs_at, read_job,
    record_reading_at, EnqueueError,
};
use solver_pilot::config::DuplicateHandling;
use solver_pilot::db::{
    finish_job, finish_job_at, insert_job_with_queue_at, mark_job_failed_at, record_job_at,
    start_next_job_at, update_job_details, update_job_progress, update_job_status, JobStore,
    QueueError,
};
use solver_pilot::queue_service::{QueueManager, QueueState};
use solver_pilot::state::{Benchmark, JobStatus};

fn benchmarks() -> Vec<Benchmark> {
    ["a.py", "b.py", "c.py"]
        .iter()
        .enumerate()
        .map(|(i, n)| Benchmark {
            id: 10 + i as i64,
            project_id: 1,
            name: n.to_string(),
            path: format!("/code/{n}"),
            created_at: "t".to_string(),
        })
        .collect()
}

fn snapshot(store: &JobStore) -> Vec<(i64, String, JobStatus, Option<i64>)> {
    store
        .rows()
        .iter()
        .map(|j| (j.id, j.benchmark_name.clone(), j.status, j.queue_position))
        .collect()
}

#[test]
fn a_batch_is_queued_behind_the_queue() {
    let mut store = JobStore::new();
    insert_job_with_queue_at(&mut store, 1, "first.py", 1, "q", "c").unwrap();
    let jobs = queue_benchmarks_at(
        &mut store,
        &benchmarks(),
        7,
        &vec![12, 10, 12],
        false,
        DuplicateHandling::Prevent,
        "2026-01-11T10:00:00Z",
    )
    .unwrap();
    assert_eq!(jobs.len(), 3);
    assert_eq!(
        snapshot(&store),
        vec![
            (1, "first.py".to_string(), JobStatus::Pending, Some(1)),
            (2, "c.py".to_string(), JobStatus::Pending, Some(2)),
            (3, "a.py".to_string(), JobStatus::Pending, Some(3)),
            (4, "c.py".to_string(), JobStatus::Pending, Some(4)),
        ]
    );
    for (job, row) in jobs.iter().zip(store.rows()[1..].iter()) {
        assert_eq!(job.id, row.id);
        assert_eq!(job.queue_position, row.queue_position);
        assert_eq!(job.project_id, Some(7));
        assert_eq!(job.created_at, "2026-01-11T10:00:00Z");
        assert_eq!(job.queued_at.as_deref(), Some("2026-01-11T10:00:00Z"));
        assert_eq!(job.started_at, None);
        assert_eq!(job.log_content, "");
    }
}

#[test]
fn a_batch_with_a_failing_item_queues_nothing() {
    let mut store = JobStore::new();
    insert_job_with_queue_at(&mut store, 1, "first.py", 1, "q", "c").unwrap();
    let before = snapshot(&store);
    let r = queue_benchmarks_at(
        &mut store,
        &benchmarks(),
        1,
        &vec![10, 11, 99, 12],
        false,
        DuplicateHandling::Prevent,
        "now",
    );
    assert!(matches!(r, Err(EnqueueError::UnknownBenchmark { id: 99 })));
    assert_eq!(
        r.err().map(|e| e.message()),
        Some("Failed to get benchmark by ID: 99".to_string())
    );
    assert_eq!(snapshot(&store), before);
    let r = queue_benchmarks_at(
        &mut store,
        &benchmarks(),
        1,
        &vec![99],
        true,
        DuplicateHandling::Allow,
        "now",
    );
    assert!(matches!(r, Err(EnqueueError::UnknownBenchmark { id: 99 })));
    assert_eq!(snapshot(&store), before);
    let none = queue_benchmarks_at(
        &mut store,
        &benchmarks(),
        1,
        &vec![],
        false,
        DuplicateHandling::Prevent,
        "now",
    )
    .unwrap();
    assert!(none.is_empty());
    assert_eq!(snapshot(&store), before);
}

#[test]
fn duplicates_follow_the_policy() {
    let mut store = JobStore::new();
    let a = insert_job_with_queue_at(&mut store, 1, "a.py", 1, "q", "c").unwrap();
    insert_job_with_queue_at(&mut store, 1, "a.py", 2, "q", "c").unwrap();
    update_job_status(&mut store, a, JobStatus::Running).unwrap();
    let before = snapshot(&store);

    let r = queue_benchmarks_at(
        &mut store,
        &benchmarks(),
        1,
        &vec![11, 10],
        false,
        DuplicateHandling::Prevent,
        "now",
    );
    match r {
        Err(e @ EnqueueError::Duplicate { .. }) => {
            assert_eq!(e.message(), "a.py is already queued. Duplicates are not allowed.")
        }
        other => panic!("{other:?}"),
    }
    assert_eq!(snapshot(&store), before);

    let r = queue_benchmarks_at(
        &mut store,
        &benchmarks(),
        1,
        &vec![11, 10],
        false,
        DuplicateHandling::Warn,
        "now",
    );
    match r {
        Err(EnqueueError::DuplicateWarning { name, statuses }) => {
            assert_eq!(name, "a.py");
            assert_eq!(statuses, vec!["running", "pending"]);
            assert_eq!(
                EnqueueError::DuplicateWarning { name, statuses }.message(),
                "DUPLICATE_WARNING:a.py:running,pending"
            );
        }
        other => panic!("{other:?}"),
    }
    assert_eq!(snapshot(&store), before);

    let forced = queue_benchmarks_at(
        &mut store,
        &benchmarks(),
        1,
        &vec![11, 10],
        true,
        DuplicateHandling::Warn,
        "now",
    )
    .unwrap();
    assert_eq!(forced.len(), 2);
    assert_eq!(store.len(), before.len() + 2);

    let allowed = queue_benchmarks(
        &mut store,
        &benchmarks(),
        1,
        &vec![10],
        false,
        DuplicateHandling::Allow,
    )
    .unwrap();
    assert_eq!(allowed[0].queue_position, Some(4));
    assert!(!allowed[0].created_at.is_empty());
    assert_eq!(Some(allowed[0].created_at.clone()), allowed[0].queued_at);
}

#[test]
fn finished_jobs_are_no_duplicates() {
    let mut store = JobStore::new();
    let a = insert_job_with_queue_at(&mut store, 1, "a.py", 1, "q", "c").unwrap();
    update_job_status(&mut store, a, JobStatus::Failed).unwrap();
    let jobs = queue_benchmarks_at(
        &mut store,
        &benchmarks(),
        1,
        &vec![10],
        false,
        DuplicateHandling::Prevent,
        "now",
    )
    .unwrap();
    assert_eq!(jobs[0].queue_position, Some(1));
}

#[test]
fn jobs_outside_the_queue() {
    let mut store = JobStore::new();
    let jobs = queue_jobs_at(
        &mut store,
        3,
        &vec!["x.py".to_string(), "y.py".to_string()],
        "now",
    )
    .unwrap();
    assert_eq!(jobs.len(), 2);
    assert_eq!(
        snapshot(&store),
        vec![
            (1, "x.py".to_string(), JobStatus::Pending, None),
            (2, "y.py".to_string(), JobStatus::Pending, None),
        ]
    );
    assert_eq!(jobs[1].queued_at, None);
    assert_eq!(jobs[1].project_id, Some(3));
}

#[test]
fn starting_the_next_job() {
    let mut store = JobStore::new();
    assert_eq!(start_next_job_at(&mut store, "t").map(|j| j.map(|j| j.id)), Ok(None));
    queue_jobs_at(&mut store, 1, &vec!["x.py".to_string(), "y.py".to_string()], "c").unwrap();
    let job = start_next_job_at(&mut store, "t1").unwrap().unwrap();
    assert_eq!((job.id, job.status), (1, JobStatus::Running));
    assert_eq!(job.started_at.as_deref(), Some("t1"));
    assert_eq!(
        start_next_job_at(&mut store, "t2").map(|j| j.map(|j| j.id)),
        Err(QueueError::AlreadyRunning { running_id: 1 })
    );
    assert_eq!(store.rows()[1].status, JobStatus::Pending);
    update_job_status(&mut store, 1, JobStatus::Killed).unwrap();
    let job = start_next_job_at(&mut store, "t3").unwrap().unwrap();
    assert_eq!(job.id, 2);
    update_job_status(&mut store, 2, JobStatus::Completed).unwrap();
    assert_eq!(start_next_job_at(&mut store, "t4").map(|j| j.map(|j| j.id)), Ok(None));
}

#[test]
fn recording_the_end() {
    let mut store = JobStore::new();
    insert_job_with_queue_at(&mut store, 1, "a.py", 1, "q", "c").unwrap();
    insert_job_with_queue_at(&mut store, 1, "b.py", 2, "q", "c").unwrap();
    update_job_status(&mut store, 1, JobStatus::Running).unwrap();
    record_job_at(
        &mut store,
        1,
        JobStatus::Completed,
        "end",
        Some((22, 22)),
        Some("the log"),
        None,
    )
    .unwrap();
    let a = &store.rows()[0];
    assert_eq!(a.status, JobStatus::Completed);
    assert_eq!(a.finished_at.as_deref(), Some("end"));
    assert_eq!((a.progress_current, a.progress_total), (22, 22));
    assert_eq!(a.log_content, "the log");
    assert_eq!(a.error_message, None);

    assert_eq!(
        mark_job_failed_at(&mut store, 1, "late", "x"),
        Err(QueueError::InvalidTransition { from: JobStatus::Completed, to: JobStatus::Failed })
    );
    assert_eq!(store.rows()[0].error_message, None);

    mark_job_failed_at(&mut store, 2, "Failed to sync project files: no route", "t").unwrap();
    let b = &store.rows()[1];
    assert_eq!(b.status, JobStatus::Failed);
    assert_eq!(
        b.error_message.as_deref(),
        Some("Failed to sync project files: no route")
    );
    assert_eq!(b.finished_at.as_deref(), Some("t"));
    assert_eq!(mark_job_failed_at(&mut store, 99, "e", "t"), Ok(()));

    update_job_details(&mut store, 2, Some((1, 2)), None, None);
    assert_eq!(store.rows()[1].progress_total, 2);
    assert_eq!(
        store.rows()[1].error_message.as_deref(),
        Some("Failed to sync project files: no route")
    );
}

#[test]
fn reading_the_job_at_work() {
    let r = read_job("[3/22] Config\nworking", true);
    assert_eq!((r.current, r.total), (3, 22));
    assert_eq!(r.progress_text, "[3/22]");
    assert!(!r.is_finished);
    assert_eq!(r.status, None);
    assert_eq!(r.error, None);

    let r = read_job("[22/22]\nTotal: 22\n", true);
    assert!(r.is_finished);
    assert_eq!(r.status, Some(JobStatus::Completed));
    assert_eq!(r.error, None);

    let r = read_job("[4/22]\nTraceback\nboom", true);
    assert!(!r.is_finished);
    assert_eq!(r.error, None);

    let r = read_job("[4/22]\nTraceback\nboom", false);
    assert!(r.is_finished);
    assert_eq!(r.status, Some(JobStatus::Failed));
    assert_eq!(r.error.as_deref(), Some("[4/22]\nTraceback\nboom"));

    let r = read_job("", true);
    assert_eq!((r.current, r.total), (0, 0));
    assert_eq!(r.progress_text, "");
    assert!(!r.is_finished);

    let r = read_job("[5/0]", false);
    assert_eq!(r.progress_text, "");
    assert_eq!(r.status, Some(JobStatus::Completed));
}

#[test]
fn counting_the_queue() {
    let mut store = JobStore::new();
    for (i, n) in ["a", "b", "c", "d"].iter().enumerate() {
        insert_job_with_queue_at(&mut store, 1, n, i as i64 + 1, "q", "c").unwrap();
    }
    update_job_status(&mut store, 1, JobStatus::Completed).unwrap();
    update_job_status(&mut store, 2, JobStatus::Failed).unwrap();
    update_job_status(&mut store, 3, JobStatus::Running).unwrap();
    let mut manager = QueueManager::new();
    manager.start_processing().unwrap();
    let status = get_queue_status(&manager, &store);
    assert_eq!(status.state, QueueState::Running);
    assert_eq!(status.current_job_id, None);
    assert_eq!(
        (status.pending_count, status.running_count, status.completed_count),
        (1, 1, 1)
    );
}

#[test]
fn finishing_a_job() {
    let mut store = JobStore::new();
    insert_job_with_queue_at(&mut store, 1, "a.py", 1, "q", "c").unwrap();
    insert_job_with_queue_at(&mut store, 1, "b.py", 2, "q", "c").unwrap();
    insert_job_with_queue_at(&mut store, 1, "c.py", 3, "q", "c").unwrap();
    update_job_status(&mut store, 1, JobStatus::Running).unwrap();
    update_job_progress(&mut store, 1, 3, 22);

    // The time of the remote machine counts where it gives one.
    assert_eq!(
        finish_job_at(&mut store, 1, JobStatus::Completed, Some("2024-05-01 10:00:00"), "now"),
        Ok(())
    );
    let a = &store.rows()[0];
    assert_eq!(a.status, JobStatus::Completed);
    assert_eq!(a.finished_at.as_deref(), Some("2024-05-01 10:00:00"));
    assert_eq!((a.progress_current, a.progress_total), (22, 22));

    // A job that is over stays as it is.
    let before = snapshot(&store);
    assert_eq!(
        finish_job_at(&mut store, 1, JobStatus::Failed, None, "later"),
        Err(QueueError::InvalidTransition { from: JobStatus::Completed, to: JobStatus::Failed })
    );
    assert_eq!(snapshot(&store), before);
    assert_eq!(store.rows()[0].finished_at.as_deref(), Some("2024-05-01 10:00:00"));

    // Without a time from the remote machine the end is now.
    update_job_status(&mut store, 2, JobStatus::Running).unwrap();
    update_job_progress(&mut store, 2, 0, 5);
    assert_eq!(finish_job_at(&mut store, 2, JobStatus::Failed, None, "now"), Ok(()));
    let b = &store.rows()[1];
    assert_eq!(b.status, JobStatus::Failed);
    assert_eq!(b.finished_at.as_deref(), Some("now"));
    assert_eq!((b.progress_current, b.progress_total), (5, 5));
    assert_eq!(store.rows()[2].queue_position, Some(1));

    // No job of that id: nothing happens.
    let before = snapshot(&store);
    assert_eq!(finish_job_at(&mut store, 99, JobStatus::Completed, None, "now"), Ok(()));
    assert_eq!(snapshot(&store), before);

    // With the clock.
    update_job_status(&mut store, 3, JobStatus::Running).unwrap();
    assert_eq!(finish_job(&mut store, 3, JobStatus::Completed, Some("then")), Ok(()));
    assert_eq!(store.rows()[2].finished_at.as_deref(), Some("then"));
    assert_eq!(store.rows()[2].status, JobStatus::Completed);
}

#[test]
fn recording_a_reading() {
    let mut store = JobStore::new();
    insert_job_with_queue_at(&mut store, 1, "a.py", 1, "q", "c").unwrap();
    update_job_status(&mut store, 1, JobStatus::Running).unwrap();

    let log = "[1/22] one\n[3/22] three\n";
    let at_work = read_job(log, true);
    assert_eq!(record_reading_at(&mut store, 1, &at_work, log, "t1"), Ok(()));
    let a = &store.rows()[0];
    assert_eq!(a.status, JobStatus::Running);
    assert_eq!((a.progress_current, a.progress_total), (3, 22));
    assert_eq!(a.finished_at, None);
    assert_eq!(a.log_content, "");

    let log = "[22/22] last\nTraceback (most recent call last):\nValueError: bad\n";
    let ended = read_job(log, false);
    assert_eq!(ended.status, Some(JobStatus::Failed));
    assert_eq!(record_reading_at(&mut store, 1, &ended, log, "t2"), Ok(()));
    let a = &store.rows()[0];
    assert_eq!(a.status, JobStatus::Failed);
    assert_eq!(a.finished_at.as_deref(), Some("t2"));
    assert_eq!((a.progress_current, a.progress_total), (22, 22));
    assert_eq!(a.log_content, log);
    assert_eq!(a.error_message, ended.error);
    assert!(a.error_message.is_some());

    // A job that is over is not recorded again.
    let before = snapshot(&store);
    assert_eq!(
        record_reading_at(&mut store, 1, &ended, "other", "t3"),
        Err(QueueError::InvalidTransition { from: JobStatus::Failed, to: JobStatus::Failed })
    );
    assert_eq!(snapshot(&store), before);
    assert_eq!(store.rows()[0].log_content, log);
}
