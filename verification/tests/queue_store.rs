use solver_pilot::db::{
    cancel_all_pending_jobs, check_duplicate_job, delete_pending_job, get_max_queue_position,
    get_queued_jobs, insert_job, insert_job_at, insert_job_with_queue, insert_job_with_queue_at,
    load_history, load_pending_jobs, load_running_job, move_job_to_end, move_job_to_front,
    remove_job_from_queue, reorder_queue_job, status_to_str, str_to_status, update_job_error,
    update_job_logs, update_job_progress, update_job_status, update_job_status_at, JobStore,
    QueueAction, QueueError,
};
use solver_pilot::state::{Job, JobStatus};

fn init_test_db() -> JobStore {
    JobStore::new()
}

#[test]
fn test_get_queued_jobs_returns_only_queued() {
    let mut pool = init_test_db();

    insert_job_with_queue(&mut pool, 1, "bench_01.py", 1, "2026-01-11T10:00:00Z").unwrap();
    insert_job_with_queue(&mut pool, 1, "bench_02.py", 2, "2026-01-11T10:01:00Z").unwrap();

    insert_job(&mut pool, 1, "manual.py").unwrap();

    let jobs = get_queued_jobs(&pool);

    assert_eq!(jobs.len(), 2, "Expected 2 queued jobs, got {}", jobs.len());
    assert_eq!(jobs[0].benchmark_name, "bench_01.py");
    assert_eq!(jobs[1].benchmark_name, "bench_02.py");

    assert!(
        !jobs.iter().any(|j| j.benchmark_name == "manual.py"),
        "Non-queued job should not be returned"
    );
}

#[test]
fn test_get_queued_jobs_sorted_by_status() {
    let mut pool = init_test_db();

    let _job1_id =
        insert_job_with_queue(&mut pool, 1, "pending.py", 1, "2026-01-11T10:00:00Z").unwrap();
    let job2_id =
        insert_job_with_queue(&mut pool, 1, "completed.py", 2, "2026-01-11T10:01:00Z").unwrap();
    let job3_id =
        insert_job_with_queue(&mut pool, 1, "running.py", 3, "2026-01-11T10:02:00Z").unwrap();
    let job4_id =
        insert_job_with_queue(&mut pool, 1, "failed.py", 4, "2026-01-11T10:03:00Z").unwrap();

    update_job_status(&mut pool, job2_id, JobStatus::Completed).unwrap();
    update_job_status(&mut pool, job3_id, JobStatus::Running).unwrap();
    update_job_status(&mut pool, job4_id, JobStatus::Failed).unwrap();

    let jobs = get_queued_jobs(&pool);

    assert_eq!(jobs.len(), 4, "Expected 4 jobs");
    assert_eq!(jobs[0].status, JobStatus::Running, "First job should be running");
    assert_eq!(jobs[1].status, JobStatus::Pending, "Second job should be pending");
    assert_eq!(jobs[2].status, JobStatus::Completed, "Third job should be completed");
    assert_eq!(jobs[3].status, JobStatus::Failed, "Fourth job should be failed");

    assert_eq!(jobs[0].benchmark_name, "running.py");
    assert_eq!(jobs[1].benchmark_name, "pending.py");
    assert_eq!(jobs[2].benchmark_name, "completed.py");
    assert_eq!(jobs[3].benchmark_name, "failed.py");
}

#[test]
fn test_remove_job_renumbers_positions() {
    let mut pool = init_test_db();

    insert_job_with_queue(&mut pool, 1, "job1.py", 1, "2026-01-11T10:00:00Z").unwrap();
    insert_job_with_queue(&mut pool, 1, "job2.py", 2, "2026-01-11T10:01:00Z").unwrap();
    let job3_id =
        insert_job_with_queue(&mut pool, 1, "job3.py", 3, "2026-01-11T10:02:00Z").unwrap();
    insert_job_with_queue(&mut pool, 1, "job4.py", 4, "2026-01-11T10:03:00Z").unwrap();
    insert_job_with_queue(&mut pool, 1, "job5.py", 5, "2026-01-11T10:04:00Z").unwrap();

    remove_job_from_queue(&mut pool, job3_id).unwrap();

    let jobs = get_queued_jobs(&pool);
    assert_eq!(jobs.len(), 4);
    assert_eq!(jobs[0].benchmark_name, "job1.py");
    assert_eq!(jobs[0].queue_position, Some(1));
    assert_eq!(jobs[1].benchmark_name, "job2.py");
    assert_eq!(jobs[1].queue_position, Some(2));
    assert_eq!(jobs[2].benchmark_name, "job4.py");
    assert_eq!(jobs[2].queue_position, Some(3));
    assert_eq!(jobs[3].benchmark_name, "job5.py");
    assert_eq!(jobs[3].queue_position, Some(4));
}

#[test]
fn test_remove_running_job_fails() {
    let mut pool = init_test_db();

    let job_id =
        insert_job_with_queue(&mut pool, 1, "job1.py", 1, "2026-01-11T10:00:00Z").unwrap();
    update_job_status(&mut pool, job_id, JobStatus::Running).unwrap();

    let result = remove_job_from_queue(&mut pool, job_id);
    assert!(result.is_err());
    assert!(result
        .err()
        .map(|e| e.message())
        .unwrap_or_default()
        .contains("running"));
}

#[test]
fn test_move_to_front_shifts_jobs() {
    let mut pool = init_test_db();

    insert_job_with_queue(&mut pool, 1, "job1.py", 1, "2026-01-11T10:00:00Z").unwrap();
    insert_job_with_queue(&mut pool, 1, "job2.py", 2, "2026-01-11T10:01:00Z").unwrap();
    let job3_id =
        insert_job_with_queue(&mut pool, 1, "job3.py", 3, "2026-01-11T10:02:00Z").unwrap();

    move_job_to_front(&mut pool, job3_id).unwrap();

    let jobs = get_queued_jobs(&pool);
    assert_eq!(jobs[0].benchmark_name, "job3.py");
    assert_eq!(jobs[0].queue_position, Some(1));
    assert_eq!(jobs[1].benchmark_name, "job1.py");
    assert_eq!(jobs[1].queue_position, Some(2));
    assert_eq!(jobs[2].benchmark_name, "job2.py");
    assert_eq!(jobs[2].queue_position, Some(3));
}

#[test]
fn test_move_to_end_shifts_jobs() {
    let mut pool = init_test_db();

    let job1_id =
        insert_job_with_queue(&mut pool, 1, "job1.py", 1, "2026-01-11T10:00:00Z").unwrap();
    insert_job_with_queue(&mut pool, 1, "job2.py", 2, "2026-01-11T10:01:00Z").unwrap();
    insert_job_with_queue(&mut pool, 1, "job3.py", 3, "2026-01-11T10:02:00Z").unwrap();

    move_job_to_end(&mut pool, job1_id).unwrap();

    let jobs = get_queued_jobs(&pool);
    assert_eq!(jobs[0].benchmark_name, "job2.py");
    assert_eq!(jobs[0].queue_position, Some(1));
    assert_eq!(jobs[1].benchmark_name, "job3.py");
    assert_eq!(jobs[1].queue_position, Some(2));
    assert_eq!(jobs[2].benchmark_name, "job1.py");
    assert_eq!(jobs[2].queue_position, Some(3));
}

#[test]
fn test_reorder_job_move_up() {
    let mut pool = init_test_db();

    insert_job_with_queue(&mut pool, 1, "job1.py", 1, "2026-01-11T10:00:00Z").unwrap();
    insert_job_with_queue(&mut pool, 1, "job2.py", 2, "2026-01-11T10:01:00Z").unwrap();
    insert_job_with_queue(&mut pool, 1, "job3.py", 3, "2026-01-11T10:02:00Z").unwrap();
    let job4_id =
        insert_job_with_queue(&mut pool, 1, "job4.py", 4, "2026-01-11T10:03:00Z").unwrap();

    reorder_queue_job(&mut pool, job4_id, 2).unwrap();

    let jobs = get_queued_jobs(&pool);
    assert_eq!(jobs[0].benchmark_name, "job1.py");
    assert_eq!(jobs[0].queue_position, Some(1));
    assert_eq!(jobs[1].benchmark_name, "job4.py");
    assert_eq!(jobs[1].queue_position, Some(2));
    assert_eq!(jobs[2].benchmark_name, "job2.py");
    assert_eq!(jobs[2].queue_position, Some(3));
    assert_eq!(jobs[3].benchmark_name, "job3.py");
    assert_eq!(jobs[3].queue_position, Some(4));
}

#[test]
fn test_reorder_job_move_down() {
    let mut pool = init_test_db();

    let job1_id =
        insert_job_with_queue(&mut pool, 1, "job1.py", 1, "2026-01-11T10:00:00Z").unwrap();
    insert_job_with_queue(&mut pool, 1, "job2.py", 2, "2026-01-11T10:01:00Z").unwrap();
    insert_job_with_queue(&mut pool, 1, "job3.py", 3, "2026-01-11T10:02:00Z").unwrap();
    insert_job_with_queue(&mut pool, 1, "job4.py", 4, "2026-01-11T10:03:00Z").unwrap();

    reorder_queue_job(&mut pool, job1_id, 3).unwrap();

    let jobs = get_queued_jobs(&pool);
    assert_eq!(jobs[0].benchmark_name, "job2.py");
    assert_eq!(jobs[0].queue_position, Some(1));
    assert_eq!(jobs[1].benchmark_name, "job3.py");
    assert_eq!(jobs[1].queue_position, Some(2));
    assert_eq!(jobs[2].benchmark_name, "job1.py");
    assert_eq!(jobs[2].queue_position, Some(3));
    assert_eq!(jobs[3].benchmark_name, "job4.py");
    assert_eq!(jobs[3].queue_position, Some(4));
}

#[test]
fn test_cancel_all_pending_preserves_running() {
    let mut pool = init_test_db();

    insert_job_with_queue(&mut pool, 1, "pending1.py", 1, "2026-01-11T10:00:00Z").unwrap();
    let running_id =
        insert_job_with_queue(&mut pool, 1, "running.py", 2, "2026-01-11T10:01:00Z").unwrap();
    insert_job_with_queue(&mut pool, 1, "pending2.py", 3, "2026-01-11T10:02:00Z").unwrap();

    update_job_status(&mut pool, running_id, JobStatus::Running).unwrap();

    let count = cancel_all_pending_jobs(&mut pool);
    assert_eq!(count, 2);

    let jobs = get_queued_jobs(&pool);
    assert_eq!(jobs.len(), 1);
    assert_eq!(jobs[0].status, JobStatus::Running);
}

#[test]
fn test_status_validation_on_modify() {
    let mut pool = init_test_db();

    let job_id =
        insert_job_with_queue(&mut pool, 1, "job1.py", 1, "2026-01-11T10:00:00Z").unwrap();

    update_job_status(&mut pool, job_id, JobStatus::Completed).unwrap();

    assert!(remove_job_from_queue(&mut pool, job_id).is_err());
    assert!(move_job_to_front(&mut pool, job_id).is_err());
    assert!(move_job_to_end(&mut pool, job_id).is_err());
    assert!(reorder_queue_job(&mut pool, job_id, 2).is_err());
}

fn names(jobs: &[Job]) -> Vec<(String, Option<i64>)> {
    jobs.iter()
        .map(|j| (j.benchmark_name.clone(), j.queue_position))
        .collect()
}

fn expect(list: &[(&str, i64)]) -> Vec<(String, Option<i64>)> {
    list.iter().map(|(n, p)| (n.to_string(), Some(*p))).collect()
}

fn queue_of(store: &mut JobStore, list: &[&str]) -> Vec<i64> {
    let mut ids = Vec::new();
    for (i, n) in list.iter().enumerate() {
        ids.push(insert_job_with_queue_at(store, 1, n, (i + 1) as i64, "q", "c").unwrap());
    }
    ids
}

#[test]
fn errors_leave_the_table_as_it_was() {
    let mut store = JobStore::new();
    let ids = queue_of(&mut store, &["a", "b", "c"]);
    let before = names(store.rows());
    assert_eq!(remove_job_from_queue(&mut store, 99), Err(QueueError::NotInQueue));
    assert_eq!(move_job_to_front(&mut store, 99), Err(QueueError::NotFound));
    assert_eq!(move_job_to_end(&mut store, 99), Err(QueueError::NotFound));
    assert_eq!(reorder_queue_job(&mut store, 99, 1), Err(QueueError::NotFound));
    assert_eq!(
        reorder_queue_job(&mut store, ids[0], 0),
        Err(QueueError::PositionOutOfRange { position: 0, queue_len: 3 })
    );
    assert_eq!(
        reorder_queue_job(&mut store, ids[0], 4),
        Err(QueueError::PositionOutOfRange { position: 4, queue_len: 3 })
    );
    assert_eq!(
        reorder_queue_job(&mut store, ids[0], -1),
        Err(QueueError::PositionOutOfRange { position: -1, queue_len: 3 })
    );
    assert_eq!(names(store.rows()), before);

    let plain = insert_job_at(&mut store, 1, "plain", "c").unwrap();
    assert_eq!(remove_job_from_queue(&mut store, plain), Err(QueueError::NotInQueue));
    assert_eq!(move_job_to_front(&mut store, plain), Err(QueueError::NotInQueue));
    assert_eq!(move_job_to_end(&mut store, plain), Err(QueueError::NotInQueue));
    assert_eq!(reorder_queue_job(&mut store, plain, 1), Err(QueueError::NotInQueue));

    update_job_status(&mut store, ids[1], JobStatus::Running).unwrap();
    assert_eq!(
        move_job_to_front(&mut store, ids[1]),
        Err(QueueError::NotPending { action: QueueAction::Move, status: JobStatus::Running })
    );
    assert_eq!(
        reorder_queue_job(&mut store, ids[1], 1),
        Err(QueueError::NotPending { action: QueueAction::Reorder, status: JobStatus::Running })
    );
}

#[test]
fn error_messages() {
    assert_eq!(QueueError::NotFound.message(), "Job not found");
    assert_eq!(QueueError::NotInQueue.message(), "Job not found in queue");
    assert_eq!(
        QueueError::NotPending { action: QueueAction::Remove, status: JobStatus::Running }.message(),
        "Cannot remove job with status 'running'. Only pending jobs can be removed."
    );
    assert_eq!(
        QueueError::NotPending { action: QueueAction::Move, status: JobStatus::Completed }.message(),
        "Cannot move job with status 'completed'. Only pending jobs can be reordered."
    );
    assert_eq!(
        QueueError::NotPending { action: QueueAction::Reorder, status: JobStatus::Killed }.message(),
        "Cannot reorder job with status 'killed'. Only pending jobs can be reordered."
    );
    assert_eq!(
        QueueError::PositionOutOfRange { position: -2, queue_len: 3 }.message(),
        "Position -2 is not in the queue (1 to 3)"
    );
    assert_eq!(
        QueueError::AlreadyRunning { running_id: 4 }.message(),
        "Un job est d\u{e9}j\u{e0} en cours"
    );
    assert_eq!(
        QueueError::InvalidTransition { from: JobStatus::Failed, to: JobStatus::Pending }.message(),
        "Cannot change job status from 'failed' to 'pending'"
    );
    assert_eq!(QueueError::StoreFull.message(), "Job table is full");
}

#[test]
fn only_one_job_runs() {
    let mut store = JobStore::new();
    let ids = queue_of(&mut store, &["a", "b", "c"]);
    update_job_status_at(&mut store, ids[0], JobStatus::Running, "t1").unwrap();
    assert_eq!(
        update_job_status_at(&mut store, ids[1], JobStatus::Running, "t2"),
        Err(QueueError::AlreadyRunning { running_id: ids[0] })
    );
    let running: Vec<_> = store
        .rows()
        .iter()
        .filter(|j| j.status == JobStatus::Running)
        .collect();
    assert_eq!(running.len(), 1);
    assert_eq!(running[0].id, ids[0]);
    assert_eq!(running[0].started_at.as_deref(), Some("t1"));
    assert_eq!(load_running_job(&store).map(|j| j.id), Some(ids[0]));

    update_job_status_at(&mut store, ids[0], JobStatus::Completed, "t3").unwrap();
    assert_eq!(load_running_job(&store).map(|j| j.id), None);
    update_job_status_at(&mut store, ids[1], JobStatus::Running, "t4").unwrap();
    assert_eq!(load_running_job(&store).map(|j| j.id), Some(ids[1]));
}

#[test]
fn a_job_never_goes_back() {
    let mut store = JobStore::new();
    let ids = queue_of(&mut store, &["a"]);
    assert_eq!(
        update_job_status(&mut store, ids[0], JobStatus::Pending),
        Err(QueueError::InvalidTransition { from: JobStatus::Pending, to: JobStatus::Pending })
    );
    update_job_status(&mut store, ids[0], JobStatus::Running).unwrap();
    assert_eq!(
        update_job_status(&mut store, ids[0], JobStatus::Pending),
        Err(QueueError::InvalidTransition { from: JobStatus::Running, to: JobStatus::Pending })
    );
    assert_eq!(
        update_job_status(&mut store, ids[0], JobStatus::Running),
        Err(QueueError::InvalidTransition { from: JobStatus::Running, to: JobStatus::Running })
    );
    update_job_status(&mut store, ids[0], JobStatus::Killed).unwrap();
    for next in [
        JobStatus::Pending,
        JobStatus::Running,
        JobStatus::Completed,
        JobStatus::Failed,
        JobStatus::Killed,
    ] {
        assert_eq!(
            update_job_status(&mut store, ids[0], next),
            Err(QueueError::InvalidTransition { from: JobStatus::Killed, to: next })
        );
    }
    assert_eq!(update_job_status(&mut store, 77, JobStatus::Running), Ok(()));
}

#[test]
fn a_job_that_starts_frees_its_position() {
    let mut store = JobStore::new();
    let ids = queue_of(&mut store, &["a", "b", "c"]);
    update_job_status_at(&mut store, ids[0], JobStatus::Running, "t").unwrap();
    assert_eq!(names(store.rows()), expect(&[("a", 1), ("b", 1), ("c", 2)]));
    assert_eq!(get_max_queue_position(&store), 2);
    assert_eq!(
        names(&get_queued_jobs(&store)),
        expect(&[("a", 1), ("b", 1), ("c", 2)])
    );
    let d = insert_job_with_queue_at(&mut store, 1, "d", 3, "q", "c").unwrap();
    move_job_to_front(&mut store, d).unwrap();
    assert_eq!(
        names(&get_queued_jobs(&store)),
        expect(&[("a", 1), ("d", 1), ("b", 2), ("c", 3)])
    );
}

#[test]
fn field_updates() {
    let mut store = JobStore::new();
    let ids = queue_of(&mut store, &["a", "b"]);
    update_job_progress(&mut store, ids[1], 3, 22);
    update_job_logs(&mut store, ids[1], "some log");
    update_job_error(&mut store, ids[1], "boom");
    update_job_progress(&mut store, 99, 1, 1);
    let b = &store.rows()[1];
    assert_eq!((b.progress_current, b.progress_total), (3, 22));
    assert_eq!(b.log_content, "some log");
    assert_eq!(b.error_message.as_deref(), Some("boom"));
    let a = &store.rows()[0];
    assert_eq!((a.progress_current, a.progress_total), (0, 0));
    assert_eq!(a.error_message, None);
}

#[test]
fn delete_pending() {
    let mut store = JobStore::new();
    let ids = queue_of(&mut store, &["a", "b", "c"]);
    let plain = insert_job_at(&mut store, 1, "plain", "c").unwrap();
    delete_pending_job(&mut store, ids[0]);
    assert_eq!(
        names(store.rows()),
        vec![
            ("b".to_string(), Some(1)),
            ("c".to_string(), Some(2)),
            ("plain".to_string(), None)
        ]
    );
    delete_pending_job(&mut store, plain);
    assert_eq!(names(store.rows()), expect(&[("b", 1), ("c", 2)]));
    update_job_status(&mut store, ids[1], JobStatus::Running).unwrap();
    delete_pending_job(&mut store, ids[1]);
    delete_pending_job(&mut store, 99);
    assert_eq!(store.len(), 2);
}

#[test]
fn pending_and_history() {
    let mut store = JobStore::new();
    let ids = queue_of(&mut store, &["a", "b", "c", "d"]);
    update_job_status_at(&mut store, ids[0], JobStatus::Running, "2026-01-01T00:00:00Z").unwrap();
    update_job_status_at(&mut store, ids[0], JobStatus::Completed, "2026-01-01T01:00:00Z").unwrap();
    update_job_status_at(&mut store, ids[1], JobStatus::Failed, "2026-01-01T03:00:00Z").unwrap();
    update_job_status_at(&mut store, ids[2], JobStatus::Killed, "2026-01-01T02:00:00Z").unwrap();
    let pending: Vec<_> = load_pending_jobs(&store).iter().map(|j| j.id).collect();
    assert_eq!(pending, vec![ids[3]]);
    let all: Vec<_> = load_history(&store, 10).iter().map(|j| j.id).collect();
    assert_eq!(all, vec![ids[1], ids[2], ids[0]]);
    let two: Vec<_> = load_history(&store, 2).iter().map(|j| j.id).collect();
    assert_eq!(two, vec![ids[1], ids[2]]);
    assert_eq!(load_history(&store, 0).len(), 0);
    assert_eq!(load_history(&store, -1).len(), 3);
}

#[test]
fn duplicates_are_found() {
    let mut store = JobStore::new();
    let ids = queue_of(&mut store, &["a.py", "b.py", "a.py"]);
    update_job_status(&mut store, ids[0], JobStatus::Running).unwrap();
    let found = check_duplicate_job(&store, "a.py");
    assert!(found.is_duplicate);
    assert_eq!(found.existing_statuses, vec!["running", "pending"]);
    update_job_status(&mut store, ids[0], JobStatus::Completed).unwrap();
    let found = check_duplicate_job(&store, "a.py");
    assert_eq!(found.existing_statuses, vec!["pending"]);
    let found = check_duplicate_job(&store, "zzz.py");
    assert!(!found.is_duplicate);
    assert!(found.existing_statuses.is_empty());
}

#[test]
fn status_names() {
    for s in [
        JobStatus::Pending,
        JobStatus::Running,
        JobStatus::Completed,
        JobStatus::Failed,
        JobStatus::Killed,
    ] {
        assert_eq!(str_to_status(status_to_str(&s)), s);
    }
    assert_eq!(status_to_str(&JobStatus::Completed), "completed");
    assert_eq!(str_to_status("whatever"), JobStatus::Pending);
    assert_eq!(str_to_status(""), JobStatus::Pending);
}

#[test]
fn tables_are_taken_over_only_when_valid() {
    let mut store = JobStore::new();
    let ids = queue_of(&mut store, &["a", "b", "c"]);
    update_job_status(&mut store, ids[0], JobStatus::Running).unwrap();
    let rows: Vec<Job> = store.rows().clone();
    let again = JobStore::from_rows(rows.clone()).unwrap();
    assert_eq!(names(again.rows()), names(store.rows()));
    let mut next = again;
    assert_eq!(insert_job_at(&mut next, 1, "n", "c"), Ok(ids[2] + 1));

    let mut gap = rows.clone();
    gap[2].queue_position = Some(3);
    assert!(JobStore::from_rows(gap).is_none());
    let mut twice = rows.clone();
    twice[2].queue_position = Some(1);
    assert!(JobStore::from_rows(twice).is_none());
    let mut two_running = rows.clone();
    two_running[1].status = JobStatus::Running;
    assert!(JobStore::from_rows(two_running).is_none());
    let mut unordered = rows.clone();
    unordered.swap(0, 1);
    assert!(JobStore::from_rows(unordered).is_none());
    let mut zero = rows.clone();
    zero[0].id = 0;
    assert!(JobStore::from_rows(zero).is_none());
    let mut full = rows;
    full[2].id = i64::MAX;
    assert!(JobStore::from_rows(full).is_none());
    assert!(JobStore::from_rows(Vec::new()).is_some());
}
