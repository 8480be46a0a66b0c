//! The job wrapper: the helper script that runs a job on the remote machine
//! and records its state, and the commands that bring it there.

use vstd::prelude::*;
use crate::lines::{trim, trim_chars};
use crate::text::{chars_of, concat2, concat3, push_str, string_of, string_views, vec_eq};

verus! {

/// The version of the wrapper script.
pub const WRAPPER_VERSION: &'static str = "1.0.0";

/// Where the wrapper script stands on the remote machine.
pub const REMOTE_WRAPPER_PATH: &'static str = "~/.solverpilot/bin/job_wrapper.sh";

/// The wrapper script. It is called with the id of a job and a command; it
/// runs the command and records in a state file and in the status table
/// that the job runs, and later how it ended.
pub const WRAPPER_SCRIPT: &'static str = "#!/bin/bash
# Runs one command as a job and records what becomes of it.
#
# Usage: job_wrapper.sh <job_id> <command> [args...]
#
# The state of the job is written to a state file and to the status table of
# the server database. The state file is what counts; the database is kept
# up to date as far as it can be reached.

set -euo pipefail

if [ \"$#\" -lt 2 ]; then
    echo \"usage: $0 <job_id> <command> [args...]\" >&2
    exit 64
fi

JOB_ID=\"$1\"
shift

RUN_USER=\"$USER\"
BASE_DIR=\"$HOME/.solverpilot-server\"
DB_PATH=\"$BASE_DIR/server.db\"
STATE_FILE=\"$BASE_DIR/jobs/$JOB_ID.status\"
LOCK_FILE=\"$BASE_DIR/locks/$JOB_ID.lock\"
SESSION_NAME=\"solverpilot_${RUN_USER}_${JOB_ID:0:8}\"

# Single quotes are doubled so that the values can stand in SQL literals.
JOB_ID_SQL=\"${JOB_ID//\\'/\\'\\'}\"
USER_SQL=\"${RUN_USER//\\'/\\'\\'}\"
SESSION_SQL=\"${SESSION_NAME//\\'/\\'\\'}\"

mkdir -p \"$BASE_DIR/jobs\" \"$BASE_DIR/locks\"

now() {
    date -u +\"%Y-%m-%dT%H:%M:%SZ\"
}

write_state() {
    # Replaced in one step, so that a reader never sees half a file.
    local tmp=\"$STATE_FILE.tmp.$$\"
    printf '%s\\n' \"$1\" > \"$tmp\"
    mv -f \"$tmp\" \"$STATE_FILE\"
}

update_db() {
    if command -v sqlite3 > /dev/null 2>&1 && [ -f \"$DB_PATH\" ]; then
        sqlite3 \"$DB_PATH\" \"$1\" > /dev/null 2>&1 || true
    fi
}

EXIT_CODE=\"\"

cleanup() {
    local code=$?
    if [ -z \"$EXIT_CODE\" ]; then
        EXIT_CODE=$code
    fi
    local status=\"completed\"
    if [ \"$EXIT_CODE\" -ne 0 ]; then
        status=\"failed\"
    fi
    local finished
    finished=\"$(now)\"
    write_state \"$status $EXIT_CODE $finished\"
    update_db \"UPDATE jobs SET status='$status', exit_code=$EXIT_CODE, completed_at='$finished' WHERE id='$JOB_ID_SQL';\"
    rm -f \"$LOCK_FILE\"
}

trap cleanup EXIT
trap 'exit 143' TERM
trap 'exit 130' INT

# One wrapper per job: the lock is taken before anything is recorded.
exec 9> \"$LOCK_FILE\"
if ! flock -n 9; then
    echo \"job $JOB_ID is already running\" >&2
    trap - EXIT
    exit 75
fi

STARTED=\"$(now)\"
write_state \"running - $STARTED\"
update_db \"INSERT OR IGNORE INTO jobs (id, user, benchmark_path, status, queued_at) VALUES ('$JOB_ID_SQL', '$USER_SQL', '', 'queued', '$STARTED');\"
update_db \"UPDATE jobs SET status='running', started_at='$STARTED', tmux_session_name='$SESSION_SQL' WHERE id='$JOB_ID_SQL';\"

set +e
\"$@\"
EXIT_CODE=$?
set -e

exit \"$EXIT_CODE\"
";

/// The wrapper script and its version.
pub struct WrapperManager {
    script_content: String,
    version: String,
}

impl WrapperManager {
    /// The script that is deployed.
    pub closed spec fn script(&self) -> Seq<char> {
        self.script_content@
    }

    /// The version of the script that is deployed.
    pub closed spec fn version_text(&self) -> Seq<char> {
        self.version@
    }

    /// A manager of the wrapper script that is built in.
    pub fn new() -> (manager: WrapperManager)
        ensures
            manager.script() == WRAPPER_SCRIPT@,
            manager.version_text() == WRAPPER_VERSION@,
    {
        WrapperManager {
            script_content: WRAPPER_SCRIPT.to_owned(),
            version: WRAPPER_VERSION.to_owned(),
        }
    }

    /// The script that is deployed.
    pub fn script_content(&self) -> (script: &str)
        ensures
            script@ == self.script(),
    {
        self.script_content.as_str()
    }

    /// The version of the script that is deployed.
    pub fn version(&self) -> (version: &str)
        ensures
            version@ == self.version_text(),
    {
        self.version.as_str()
    }

    /// The command that runs `command` as the job `job_id` under the
    /// wrapper: the path of the wrapper, the id and the words of the command,
    /// with one space between each two. Without a command the line ends with
    /// the space behind the id.
    pub fn generate_invocation(&self, job_id: &str, command: &[String]) -> (line: String)
        ensures
            line@ == REMOTE_WRAPPER_PATH@ + " "@ + job_id@ + " "@ + crate::lines::join(
                string_views(command@),
                " "@,
            ),
    {
        let mut v = chars_of(REMOTE_WRAPPER_PATH);
        push_str(&mut v, " ");
        push_str(&mut v, job_id);
        push_str(&mut v, " ");
        let ghost head = v@;
        let ghost words = string_views(command@);
        let mut i: usize = 0;
        while i < command.len()
            invariant
                i <= command.len(),
                words == string_views(command@),
                v@ == head + crate::lines::join(words.take(i as int), " "@),
            decreases command.len() - i,
        {
            proof {
                let next = words.take(i + 1);
                assert(next.drop_last() =~= words.take(i as int));
                assert(next.last() == command@[i as int]@);
            }
            if i > 0 {
                push_str(&mut v, " ");
            }
            push_str(&mut v, command[i].as_str());
            proof {
                assert(v@ =~= head + crate::lines::join(words.take(i + 1), " "@));
            }
            i += 1;
        }
        proof {
            assert(words.take(i as int) =~= words);
            assert(head =~= REMOTE_WRAPPER_PATH@ + " "@ + job_id@ + " "@);
        }
        string_of(&v)
    }

    /// The command that writes the script to its place on the remote
    /// machine. The script stands between quoted markers, so that the remote
    /// shell leaves its variables alone.
    pub fn write_command(&self) -> (command: String)
        ensures
            command@ == "cat > "@ + REMOTE_WRAPPER_PATH@ + " << 'WRAPPER_EOF'\n"@ + self.script()
                + "\nWRAPPER_EOF"@,
    {
        let mut v = chars_of("cat > ");
        push_str(&mut v, REMOTE_WRAPPER_PATH);
        push_str(&mut v, " << 'WRAPPER_EOF'\n");
        push_str(&mut v, self.script_content.as_str());
        push_str(&mut v, "\nWRAPPER_EOF");
        proof {
            assert(v@ =~= "cat > "@ + REMOTE_WRAPPER_PATH@ + " << 'WRAPPER_EOF'\n"@
                + self.script() + "\nWRAPPER_EOF"@);
        }
        string_of(&v)
    }
}

impl Default for WrapperManager {
    fn default() -> (manager: WrapperManager)
        ensures
            manager.script() == WRAPPER_SCRIPT@,
            manager.version_text() == WRAPPER_VERSION@,
    {
        WrapperManager::new()
    }
}

/// The command that tells whether the wrapper is installed: it prints
/// `installed` or `missing`.
pub fn check_command() -> (command: String)
    ensures
        command@ == "test -f "@ + REMOTE_WRAPPER_PATH@ + " && echo 'installed' || echo 'missing'"@,
{
    concat3("test -f ", REMOTE_WRAPPER_PATH, " && echo 'installed' || echo 'missing'")
}

/// Whether the answer to the check command says that the wrapper is
/// installed.
pub fn is_installed(output: &str) -> (installed: bool)
    ensures
        installed == (trim(output@) == "installed"@),
{
    let t = trim_chars(&chars_of(output));
    vec_eq(&t, &chars_of("installed"))
}

/// The command that makes the directory of the wrapper.
pub fn mkdir_command() -> (command: String)
    ensures
        command@ == "mkdir -p ~/.solverpilot/bin"@,
{
    "mkdir -p ~/.solverpilot/bin".to_owned()
}

/// The command that lets the wrapper be run.
pub fn chmod_command() -> (command: String)
    ensures
        command@ == "chmod +x "@ + REMOTE_WRAPPER_PATH@,
{
    concat2("chmod +x ", REMOTE_WRAPPER_PATH)
}

/// The command that takes away what a failed deployment left behind.
pub fn cleanup_command() -> (command: String)
    ensures
        command@ == "rm -f "@ + REMOTE_WRAPPER_PATH@,
{
    concat2("rm -f ", REMOTE_WRAPPER_PATH)
}

} // verus!
