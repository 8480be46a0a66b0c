use solver_pilot::db::{insert_job_at, insert_job_with_queue_at, update_job_status, JobStore};
use solver_pilot::queue_service::{
    generate_session_name, parse_sql_output, remote_destination, select_next_job,
    session_check_command, session_create_command, session_kill_command, session_name_for,
    session_note, status_query_command, wrapper_command, LoopStep, QueueCommand, QueueManager,
    QueueState, QueueStateError,
};
use solver_pilot::state::JobStatus;

fn username() -> String {
    whoami::username().unwrap_or_else(|_| "unknown".to_string())
}

#[test]
fn test_generate_session_name_format() {
    let session = generate_session_name(12_345_678);
    assert!(session.starts_with("solverpilot_"));
    assert!(session.contains(&username()));
    assert!(session.ends_with("12345678"));
}

#[test]
fn test_generate_session_name_truncation() {
    let session = generate_session_name(123_456_789_012);
    assert!(session.ends_with("12345678"));
    assert!(!session.contains("9012"));
}

#[test]
fn test_generate_session_name_short_id() {
    let session = generate_session_name(42);
    assert!(session.ends_with("42"));
}

#[test]
fn session_names_are_exact() {
    assert_eq!(session_name_for("alice", 12_345_678), "solverpilot_alice_12345678");
    assert_eq!(session_name_for("alice", 123_456_789_012), "solverpilot_alice_12345678");
    assert_eq!(session_name_for("bob", 0), "solverpilot_bob_0");
    assert_eq!(session_name_for("bob", -5), "solverpilot_bob_-5");
    assert_eq!(session_name_for("", i64::MIN), "solverpilot__-9223372");
    assert_eq!(session_name_for("x", i64::MAX), "solverpilot_x_92233720");
    assert_eq!(
        generate_session_name(7),
        session_name_for(&username(), 7)
    );
}

#[test]
fn test_parse_sql_output_completed() {
    let output = "completed|0|2026-01-11T14:23:45Z";
    let result = parse_sql_output(output);
    assert!(result.is_some());

    let (status, exit_code, completed_at) = result.unwrap_or_default();
    assert_eq!(status, "completed");
    assert_eq!(exit_code, Some(0));
    assert_eq!(completed_at, Some("2026-01-11T14:23:45Z".to_string()));
}

#[test]
fn test_parse_sql_output_failed() {
    let output = "failed|1|2026-01-11T14:30:00Z";
    let result = parse_sql_output(output);
    assert!(result.is_some());

    let (status, exit_code, completed_at) = result.unwrap_or_default();
    assert_eq!(status, "failed");
    assert_eq!(exit_code, Some(1));
    assert_eq!(completed_at, Some("2026-01-11T14:30:00Z".to_string()));
}

#[test]
fn test_parse_sql_output_running() {
    let output = "running||";
    let result = parse_sql_output(output);
    assert!(result.is_some());

    let (status, exit_code, completed_at) = result.unwrap_or_default();
    assert_eq!(status, "running");
    assert_eq!(exit_code, None);
    assert_eq!(completed_at, None);
}

#[test]
fn test_parse_sql_output_malformed() {
    assert!(parse_sql_output("").is_none());
    assert!(parse_sql_output("   ").is_none());
    assert!(parse_sql_output("\n").is_none());
}

#[test]
fn test_parse_sql_output_partial() {
    let output = "completed";
    let result = parse_sql_output(output);
    assert!(result.is_some());
    let (status, exit_code, completed_at) = result.unwrap_or_default();
    assert_eq!(status, "completed");
    assert_eq!(exit_code, None);
    assert_eq!(completed_at, None);
}

#[test]
fn status_rows_in_detail() {
    assert_eq!(
        parse_sql_output("  failed|-9|t|extra \n"),
        Some(("failed".to_string(), Some(-9), Some("t".to_string())))
    );
    assert_eq!(
        parse_sql_output("done|x|"),
        Some(("done".to_string(), None, None))
    );
    assert_eq!(
        parse_sql_output("done|+7"),
        Some(("done".to_string(), Some(7), None))
    );
    assert_eq!(
        parse_sql_output("done|2147483647|a|b"),
        Some(("done".to_string(), Some(i32::MAX), Some("a".to_string())))
    );
    assert_eq!(
        parse_sql_output("done|-2147483648"),
        Some(("done".to_string(), Some(i32::MIN), None))
    );
    assert_eq!(
        parse_sql_output("done|2147483648"),
        Some(("done".to_string(), None, None))
    );
    assert_eq!(
        parse_sql_output("done| 1"),
        Some(("done".to_string(), None, None))
    );
    assert_eq!(parse_sql_output("|0|t"), None);
}

#[test]
fn test_wrapper_invocation_command_format() {
    let job_id: i64 = 12345;
    let benchmark_name = "bench.py";
    let wrapper_cmd = wrapper_command(job_id, benchmark_name);

    assert!(wrapper_cmd.starts_with("~/.solverpilot/bin/job_wrapper.sh"));
    assert!(wrapper_cmd.contains("12345"));
    assert!(wrapper_cmd.contains("python3"));
    assert!(wrapper_cmd.contains("bench.py"));
    assert_eq!(
        wrapper_cmd,
        "~/.solverpilot/bin/job_wrapper.sh 12345 python3 bench.py"
    );
}

#[test]
fn test_rsync_command_structure() {
    let project_path = "/home/user/myproject";
    let ssh_host = "server.example.com";
    let ssh_username = "alice";

    let project_name = std::path::Path::new(project_path)
        .file_name()
        .and_then(|n| n.to_str())
        .unwrap_or("unknown");

    assert_eq!(project_name, "myproject");

    let remote_dest = remote_destination(ssh_username, ssh_host, project_name);
    assert_eq!(
        remote_dest,
        "alice@server.example.com:~/solverpilot-projects/myproject"
    );
}

#[test]
fn test_tmux_session_collision_check_command() {
    let session_name = "solverpilot_alice_12345678";
    let check_cmd = session_check_command(session_name);
    assert_eq!(
        check_cmd,
        "tmux has-session -t solverpilot_alice_12345678 2>/dev/null"
    );
}

#[test]
fn test_tmux_create_session_command() {
    let session_name = "solverpilot_alice_12345678";
    let wrapper_cmd = "~/.solverpilot/bin/job_wrapper.sh 12345678 python3 bench.py";
    let create_cmd = session_create_command(session_name, wrapper_cmd);

    assert!(create_cmd.starts_with("tmux new-session -d -s"));
    assert!(create_cmd.contains(session_name));
    assert!(create_cmd.contains("job_wrapper.sh"));
    assert_eq!(
        create_cmd,
        "tmux new-session -d -s solverpilot_alice_12345678 \"~/.solverpilot/bin/job_wrapper.sh 12345678 python3 bench.py\""
    );
}

#[test]
fn other_session_commands() {
    assert_eq!(session_kill_command("s1"), "tmux kill-session -t s1");
    assert_eq!(session_note("s1"), "tmux_session: s1");
    assert_eq!(
        status_query_command(42),
        "sqlite3 ~/.solverpilot-server/server.db \"SELECT status, exit_code, completed_at FROM jobs WHERE id = 42\""
    );
}

#[test]
fn queue_states() {
    let all_states = [QueueState::Idle, QueueState::Running, QueueState::Paused];
    let all_commands = [
        QueueCommand::Start,
        QueueCommand::Stop,
        QueueCommand::Pause,
        QueueCommand::Resume,
        QueueCommand::Drained,
    ];
    for s in all_states {
        for c in all_commands {
            let expected = match (s, c) {
                (QueueState::Idle, QueueCommand::Start) => Ok(QueueState::Running),
                (QueueState::Running, QueueCommand::Stop) => Ok(QueueState::Idle),
                (QueueState::Running, QueueCommand::Drained) => Ok(QueueState::Idle),
                (QueueState::Running, QueueCommand::Pause) => Ok(QueueState::Paused),
                (QueueState::Paused, QueueCommand::Resume) => Ok(QueueState::Running),
                _ => Err(QueueStateError { state: s, command: c }),
            };
            assert_eq!(s.transition(c), expected);
        }
    }
    assert_eq!(QueueState::Idle.as_str(), "idle");
    assert_eq!(QueueState::Running.as_str(), "running");
    assert_eq!(QueueState::Paused.as_str(), "paused");
    assert_eq!(
        QueueStateError { state: QueueState::Running, command: QueueCommand::Start }.message(),
        "Queue already processing"
    );
    assert_eq!(
        QueueStateError { state: QueueState::Idle, command: QueueCommand::Pause }.message(),
        "Queue is not running"
    );
}

#[test]
fn manager_follows_the_commands() {
    let mut m = QueueManager::new();
    assert_eq!(m.get_state(), QueueState::Idle);
    assert!(!m.is_processing());
    assert_eq!(m.current_job(), None);
    assert!(m.pause_processing().is_err());
    assert!(m.stop_processing().is_err());
    assert!(m.resume_processing().is_err());
    assert_eq!(m.get_state(), QueueState::Idle);
    m.start_processing().unwrap();
    assert!(m.is_processing());
    assert_eq!(
        m.start_processing(),
        Err(QueueStateError { state: QueueState::Running, command: QueueCommand::Start })
    );
    m.pause_processing().unwrap();
    assert_eq!(m.get_state(), QueueState::Paused);
    assert!(m.start_processing().is_err());
    assert!(m.stop_processing().is_err());
    m.resume_processing().unwrap();
    m.stop_processing().unwrap();
    assert_eq!(m.get_state(), QueueState::Idle);
}

#[test]
fn the_loop_takes_jobs_in_order() {
    let mut store = JobStore::new();
    let plain = insert_job_at(&mut store, 1, "plain", "c").unwrap();
    let a = insert_job_with_queue_at(&mut store, 1, "a", 1, "q", "c").unwrap();
    let b = insert_job_with_queue_at(&mut store, 1, "b", 2, "q", "c").unwrap();
    solver_pilot::db::move_job_to_front(&mut store, b).unwrap();
    assert_eq!(select_next_job(&store).map(|j| j.id), Some(plain));

    let mut m = QueueManager::new();
    assert!(matches!(m.next_step(&store), LoopStep::Halt));
    m.start_processing().unwrap();
    let mut order = Vec::new();
    loop {
        match m.next_step(&store) {
            LoopStep::Run(job) => {
                assert_eq!(m.current_job(), Some(job.id));
                update_job_status(&mut store, job.id, JobStatus::Running).unwrap();
                update_job_status(&mut store, job.id, JobStatus::Completed).unwrap();
                m.job_finished();
                assert_eq!(m.current_job(), None);
                order.push(job.id);
            }
            LoopStep::Done => break,
            LoopStep::Halt => panic!("a running queue does not halt"),
        }
    }
    assert_eq!(order, vec![plain, b, a]);
    assert_eq!(m.get_state(), QueueState::Idle);
    assert_eq!(select_next_job(&store).map(|j| j.id), None);
    assert_eq!(store.rows()[0].id, plain);
    assert_eq!(store.rows()[0].status, JobStatus::Completed);

    m.start_processing().unwrap();
    m.pause_processing().unwrap();
    insert_job_with_queue_at(&mut store, 1, "c", 1, "q", "c").unwrap();
    assert!(matches!(m.next_step(&store), LoopStep::Halt));
    assert_eq!(m.get_state(), QueueState::Paused);
}

#[test]
fn session_names_tell_jobs_apart() {
    assert_eq!(session_name_for("alice", 7), "solverpilot_alice_7");
    assert_eq!(session_name_for("alice", 70), "solverpilot_alice_70");
    assert_eq!(session_name_for("alice", 99_999_999), "solverpilot_alice_99999999");
    assert_ne!(session_name_for("alice", 1), session_name_for("alice", 10));
    assert_ne!(session_name_for("alice", 12_345_678), session_name_for("alice", 12_345_679));
    // Beyond eight digits only the first eight count.
    assert_eq!(
        session_name_for("alice", 123_456_780),
        session_name_for("alice", 123_456_789)
    );
}

#[test]
fn a_pending_job_keeps_the_queue_at_work() {
    let mut store = JobStore::new();
    let first = insert_job_at(&mut store, 1, "first", "c").unwrap();
    let queued = insert_job_with_queue_at(&mut store, 1, "queued", 1, "q", "c").unwrap();
    let second = insert_job_at(&mut store, 1, "second", "c").unwrap();

    let mut m = QueueManager::new();
    m.start_processing().unwrap();
    let mut order = Vec::new();
    while let LoopStep::Run(job) = m.next_step(&store) {
        update_job_status(&mut store, job.id, JobStatus::Running).unwrap();
        update_job_status(&mut store, job.id, JobStatus::Failed).unwrap();
        m.job_finished();
        order.push(job.id);
    }
    assert_eq!(order, vec![first, second, queued]);
    assert_eq!(m.get_state(), QueueState::Idle);
    assert!(store.rows().iter().all(|j| j.status != JobStatus::Pending));
}
