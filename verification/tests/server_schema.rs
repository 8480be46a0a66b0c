use solver_pilot::server_db::{
    chmod_command, generate_init_script, mkdir_command, sql_command, version_statement,
};

#[test]
fn test_generate_init_script() {
    let script = generate_init_script();

    assert!(script.contains("PRAGMA journal_mode = WAL"));
    assert!(script.contains("PRAGMA busy_timeout = 5000"));
    assert!(script.contains("PRAGMA foreign_keys = ON"));
    assert!(script.contains("CREATE TABLE IF NOT EXISTS jobs"));
    assert!(script.contains("CREATE INDEX IF NOT EXISTS idx_jobs_status"));
    assert!(script.contains("CREATE INDEX IF NOT EXISTS idx_jobs_user"));
    assert!(script.contains("CREATE INDEX IF NOT EXISTS idx_jobs_queued_at"));
    assert!(script.contains("CREATE TABLE IF NOT EXISTS metadata"));
}

#[test]
fn schema_has_the_columns_of_the_status_table() {
    let script = generate_init_script();
    for column in [
        "id",
        "user",
        "benchmark_path",
        "status",
        "tmux_session_name",
        "queued_at",
        "started_at",
        "completed_at",
        "exit_code",
        "error_message",
        "log_file",
        "progress_current",
        "progress_total",
    ] {
        assert!(script.contains(&format!("\n    {column} ")), "{column}");
    }
    assert!(script.contains("'queued', 'running', 'completed', 'failed', 'killed'"));
}

#[test]
fn database_commands() {
    assert_eq!(mkdir_command(), "mkdir -p ~/.solverpilot-server");
    assert_eq!(chmod_command(), "chmod 600 ~/.solverpilot-server/server.db");
    assert_eq!(
        sql_command("SELECT 1;"),
        "sqlite3 ~/.solverpilot-server/server.db <<'SQL_EOF'\nSELECT 1;\nSQL_EOF"
    );
    assert_eq!(
        sql_command(&version_statement("1.0.0")),
        "sqlite3 ~/.solverpilot-server/server.db <<'SQL_EOF'\nINSERT OR REPLACE INTO metadata (key, value) VALUES ('wrapper_version', '1.0.0');\nSQL_EOF"
    );
}
