//! The status database of the remote machine.

use vstd::prelude::*;
use crate::text::concat3;

verus! {

/// The statements that set up the status database: its settings, the table
/// of jobs with its indexes, and the table of metadata. Every statement can
/// be run again on a database that is set up already.
pub const SCHEMA: &'static str = "PRAGMA journal_mode = WAL;
PRAGMA busy_timeout = 5000;
PRAGMA foreign_keys = ON;

CREATE TABLE IF NOT EXISTS jobs (
    id TEXT PRIMARY KEY,
    user TEXT NOT NULL,
    benchmark_path TEXT NOT NULL,
    status TEXT NOT NULL CHECK(status IN ('queued', 'running', 'completed', 'failed', 'killed')),
    tmux_session_name TEXT,
    queued_at TEXT NOT NULL,
    started_at TEXT,
    completed_at TEXT,
    exit_code INTEGER,
    error_message TEXT,
    log_file TEXT,
    progress_current INTEGER DEFAULT 0,
    progress_total INTEGER DEFAULT 0
);

CREATE INDEX IF NOT EXISTS idx_jobs_status ON jobs(status);
CREATE INDEX IF NOT EXISTS idx_jobs_user ON jobs(user);
CREATE INDEX IF NOT EXISTS idx_jobs_queued_at ON jobs(queued_at);

CREATE TABLE IF NOT EXISTS metadata (
    key TEXT PRIMARY KEY,
    value TEXT NOT NULL
);
";

/// The script that sets up the status database.
pub fn generate_init_script() -> (script: String)
    ensures
        script@ == SCHEMA@,
{
    SCHEMA.to_owned()
}

/// The command that makes the directory of the status database.
pub fn mkdir_command() -> (command: String)
    ensures
        command@ == "mkdir -p ~/.solverpilot-server"@,
{
    "mkdir -p ~/.solverpilot-server".to_owned()
}

/// The command that feeds `script` to the status database. The script
/// stands between quoted markers, so that the remote shell leaves it alone.
pub fn sql_command(script: &str) -> (command: String)
    ensures
        command@ == "sqlite3 ~/.solverpilot-server/server.db <<'SQL_EOF'\n"@ + script@
            + "\nSQL_EOF"@,
{
    concat3("sqlite3 ~/.solverpilot-server/server.db <<'SQL_EOF'\n", script, "\nSQL_EOF")
}

/// The command that keeps the status database to its owner.
pub fn chmod_command() -> (command: String)
    ensures
        command@ == "chmod 600 ~/.solverpilot-server/server.db"@,
{
    "chmod 600 ~/.solverpilot-server/server.db".to_owned()
}

/// The statement that records which version of the wrapper is deployed.
pub fn version_statement(version: &str) -> (statement: String)
    ensures
        statement@ == "INSERT OR REPLACE INTO metadata (key, value) VALUES ('wrapper_version', '"@
            + version@ + "');"@,
{
    concat3(
        "INSERT OR REPLACE INTO metadata (key, value) VALUES ('wrapper_version', '",
        version,
        "');",
    )
}

} // verus!
