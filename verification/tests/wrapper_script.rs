use solver_pilot::wrapper::{
    check_command, chmod_command, cleanup_command, is_installed, mkdir_command, WrapperManager,
    REMOTE_WRAPPER_PATH, WRAPPER_SCRIPT, WRAPPER_VERSION,
};

#[test]
fn test_wrapper_script_embedded() {
    assert!(
        WRAPPER_SCRIPT.contains("#!/bin/bash"),
        "Wrapper should be a bash script"
    );
    assert!(
        WRAPPER_SCRIPT.contains("trap cleanup EXIT"),
        "Wrapper should have EXIT trap"
    );
    assert!(
        WRAPPER_SCRIPT.contains("set -euo pipefail"),
        "Wrapper should use strict mode"
    );
}

#[test]
fn test_wrapper_version() {
    assert_eq!(WRAPPER_VERSION, "1.0.0");
}

#[test]
fn test_wrapper_manager_creation() {
    let manager = WrapperManager::new();
    assert_eq!(manager.version(), "1.0.0");
    assert!(!manager.script_content().is_empty());
}

#[test]
fn test_generate_invocation() {
    let manager = WrapperManager::new();
    let cmd = manager.generate_invocation(
        "test-job-123",
        &["python3".to_string(), "bench.py".to_string()],
    );
    assert_eq!(
        cmd,
        "~/.solverpilot/bin/job_wrapper.sh test-job-123 python3 bench.py"
    );
}

#[test]
fn test_heredoc_command_format_preserves_variables() {
    let manager = WrapperManager::new();
    assert!(
        manager.script_content().contains("$JOB_ID"),
        "Script variables should be preserved"
    );
    assert!(
        manager.script_content().contains("$USER"),
        "Script environment variables should be preserved"
    );
}

#[test]
fn test_wrapper_has_signal_handlers() {
    assert!(
        WRAPPER_SCRIPT.contains("trap 'exit 143' TERM"),
        "Should handle SIGTERM"
    );
    assert!(
        WRAPPER_SCRIPT.contains("trap 'exit 130' INT"),
        "Should handle SIGINT"
    );
}

#[test]
fn test_wrapper_has_sql_escaping() {
    assert!(
        WRAPPER_SCRIPT.contains("JOB_ID_SQL"),
        "Should escape SQL variables"
    );
}

#[test]
fn test_default_trait() {
    let manager = WrapperManager::default();
    assert_eq!(manager.version(), "1.0.0");
}

#[test]
fn test_check_command_format() {
    let expected_check_cmd = check_command();
    assert!(expected_check_cmd.contains("~/.solverpilot/bin/job_wrapper.sh"));
    assert!(expected_check_cmd.contains("echo 'installed'"));
    assert!(expected_check_cmd.contains("echo 'missing'"));
    assert_eq!(
        expected_check_cmd,
        "test -f ~/.solverpilot/bin/job_wrapper.sh && echo 'installed' || echo 'missing'"
    );
}

#[test]
fn test_deployment_mkdir_command() {
    let mkdir_cmd = mkdir_command();
    assert!(mkdir_cmd.contains("-p"));
    assert!(mkdir_cmd.contains("~/.solverpilot/bin"));
}

#[test]
fn test_deployment_heredoc_format() {
    let manager = WrapperManager::new();
    let write_cmd = manager.write_command();

    assert!(write_cmd.contains("<< 'WRAPPER_EOF'"));
    assert!(write_cmd.contains("WRAPPER_EOF"));
    assert!(write_cmd.contains(manager.script_content()));
    assert!(write_cmd.contains("$JOB_ID"));
    assert!(write_cmd.contains("$USER"));
    assert_eq!(
        write_cmd,
        format!(
            "cat > {} << 'WRAPPER_EOF'\n{}\nWRAPPER_EOF",
            REMOTE_WRAPPER_PATH,
            manager.script_content()
        )
    );
}

#[test]
fn test_deployment_chmod_command() {
    let chmod_cmd = chmod_command();
    assert!(chmod_cmd.contains("chmod +x"));
    assert!(chmod_cmd.contains("~/.solverpilot/bin/job_wrapper.sh"));
}

#[test]
fn test_cleanup_command_on_failure() {
    let cleanup_cmd = cleanup_command();
    assert!(cleanup_cmd.contains("rm -f"));
    assert!(cleanup_cmd.contains("~/.solverpilot/bin/job_wrapper.sh"));
}

#[test]
fn test_idempotent_deployment_logic() {
    let manager = WrapperManager::new();

    let installed_output = "installed";
    assert_eq!(installed_output.trim(), "installed");
    assert!(is_installed(installed_output));

    let missing_output = "missing";
    assert_ne!(missing_output.trim(), "installed");
    assert!(!is_installed(missing_output));

    assert_eq!(manager.version(), WRAPPER_VERSION);
}

#[test]
fn test_remote_path_constant() {
    assert_eq!(
        REMOTE_WRAPPER_PATH, "~/.solverpilot/bin/job_wrapper.sh",
        "Remote path must match architecture spec"
    );
}

#[test]
fn test_wrapper_script_matches_disk() {
    let script = WRAPPER_SCRIPT;

    assert!(script.starts_with("#!/bin/bash"));

    assert!(script.contains("set -euo pipefail"));

    assert!(script.contains("trap cleanup EXIT"));

    assert!(script.contains(".solverpilot-server"));
    assert!(script.contains("server.db"));

    assert!(script.contains("$BASE_DIR/jobs/$JOB_ID.status"));

    assert!(script.contains("$BASE_DIR/locks/$JOB_ID.lock"));
}

#[test]
fn test_generate_invocation_with_special_characters() {
    let manager = WrapperManager::new();

    let cmd = manager.generate_invocation(
        "550e8400-e29b-41d4-a716-446655440000",
        &["python3".to_string(), "benchmark.py".to_string()],
    );
    assert!(cmd.contains("550e8400-e29b-41d4-a716-446655440000"));

    let cmd2 = manager.generate_invocation(
        "job_123_test",
        &[
            "python3".to_string(),
            "script.py".to_string(),
            "--arg=value".to_string(),
        ],
    );
    assert!(cmd2.contains("job_123_test"));
    assert!(cmd2.contains("--arg=value"));
}

#[test]
fn test_generate_invocation_empty_args() {
    let manager = WrapperManager::new();
    let cmd = manager.generate_invocation("test-job", &[]);
    assert_eq!(cmd, "~/.solverpilot/bin/job_wrapper.sh test-job ");
}

#[test]
fn test_wrapper_script_line_count() {
    let lines: Vec<&str> = WRAPPER_SCRIPT.lines().collect();
    assert!(lines.len() > 50, "Script should have substantial content");
    assert!(lines.len() < 200, "Script should be concise");
}

#[test]
fn installed_answers() {
    assert!(is_installed(" installed\n"));
    assert!(!is_installed("installed missing"));
    assert!(!is_installed(""));
}
