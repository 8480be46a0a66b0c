//! Working through the `ssh` program and one shared connection: the socket of
//! the connection, the options that use it, the key agent, and the command
//! that starts a job in a detached session.

use vstd::prelude::*;
use crate::config::AppConfig;
use crate::lines::{lines, lines_of, trim, trim_chars, words, words_of};
use crate::numbers::{push_signed_decimal, signed_decimal};
use crate::text::{
    chars_of, concat2, contains, push_str, string_of, string_views, vec_contains, vec_eq, views,
};

verus! {

/// Whether the key can be used through the agent.
#[derive(Debug, Clone)]
pub enum SshKeyStatus {
    /// The agent holds the key.
    InAgent,
    /// The key exists and needs its passphrase.
    NeedsPassphrase { key_path: String },
    /// There is no key file.
    NoKey { expected_path: String },
    /// There is no agent.
    NoAgent,
}

/// The socket of the shared connection to the host: in the `.ssh` directory
/// of the home directory, or of `/tmp` where that is not known.
pub open spec fn socket_text(home: Option<Seq<char>>, host: Seq<char>) -> Seq<char> {
    (match home {
        Some(h) => h,
        None => "/tmp"@,
    }) + "/.ssh/benchmark-runner-"@ + host + ".sock"@
}

/// The socket of the shared connection to the configured host.
pub fn control_socket_path(config: &AppConfig, home: Option<&str>) -> (path: String)
    ensures
        path@ == socket_text(crate::text::opt_str(home), config.ssh.host@),
{
    let mut v = match home {
        Some(h) => chars_of(h),
        None => chars_of("/tmp"),
    };
    push_str(&mut v, "/.ssh/benchmark-runner-");
    push_str(&mut v, config.ssh.host.as_str());
    push_str(&mut v, ".sock");
    proof {
        assert(v@ =~= socket_text(crate::text::opt_str(home), config.ssh.host@));
    }
    string_of(&v)
}

/// The options that make `ssh` use the shared connection.
pub fn control_master_ssh_args(config: &AppConfig, home: Option<&str>) -> (args: Vec<String>)
    ensures
        string_views(args@) == seq![
            "-o"@,
            "ControlPath="@ + socket_text(crate::text::opt_str(home), config.ssh.host@),
            "-o"@,
            "ControlMaster=no"@,
        ],
{
    let socket = control_socket_path(config, home);
    let mut args: Vec<String> = Vec::new();
    args.push("-o".to_owned());
    args.push(concat2("ControlPath=", socket.as_str()));
    args.push("-o".to_owned());
    args.push("ControlMaster=no".to_owned());
    proof {
        assert(string_views(args@) =~= seq![
            "-o"@,
            "ControlPath="@ + socket_text(crate::text::opt_str(home), config.ssh.host@),
            "-o"@,
            "ControlMaster=no"@,
        ]);
    }
    args
}

/// The remote shell that makes `rsync` use the shared connection.
pub fn rsync_ssh_command(config: &AppConfig, home: Option<&str>) -> (command: String)
    ensures
        command@ == "ssh -o ControlPath="@ + socket_text(
            crate::text::opt_str(home),
            config.ssh.host@,
        ) + " -o ControlMaster=no"@,
{
    let socket = control_socket_path(config, home);
    crate::text::concat3("ssh -o ControlPath=", socket.as_str(), " -o ControlMaster=no")
}

/// The remote machine as `ssh` names it: the user, `@` and the host.
pub fn remote_login(config: &AppConfig) -> (login: String)
    ensures
        login@ == config.ssh.user@ + "@"@ + config.ssh.host@,
{
    crate::text::concat3(config.ssh.user.as_str(), "@", config.ssh.host.as_str())
}

// ---------------------------------------------------------------------------
// The agent
// ---------------------------------------------------------------------------

/// Whether the agent holds the key: the list of the agent contains the
/// fingerprint of the key, which is the second word of what `ssh-keygen`
/// prints for it.
pub open spec fn agent_holds(agent_list: Seq<char>, key_print: Seq<char>) -> bool {
    words(key_print).len() >= 2 && contains(agent_list, words(key_print)[1])
}

/// Whether the agent holds the key, given the list of the agent and what
/// `ssh-keygen` prints for the key.
pub fn key_in_agent(agent_list: &str, key_print: &str) -> (held: bool)
    ensures
        held == agent_holds(agent_list@, key_print@),
{
    let ws = words_of(&chars_of(key_print));
    if ws.len() < 2 {
        return false;
    }
    assert(views(ws@)[1] == ws@[1]@);
    vec_contains(&chars_of(agent_list), &ws[1])
}

/// `text` with `'"'"'` in place of every single quote from index `i` on, so
/// that it can stand between single quotes in a shell script.
pub open spec fn quoted_from(text: Seq<char>, i: int) -> Seq<char>
    decreases text.len() - i,
{
    if i < 0 || i >= text.len() {
        Seq::empty()
    } else if text[i] == '\'' {
        "'\"'\"'"@ + quoted_from(text, i + 1)
    } else {
        seq![text[i]] + quoted_from(text, i + 1)
    }
}

/// The script that hands the passphrase to `ssh-add`.
pub open spec fn askpass_text(passphrase: Seq<char>) -> Seq<char> {
    "#!/bin/sh\necho '"@ + quoted_from(passphrase, 0) + "'\n"@
}

/// The script that hands the passphrase to `ssh-add`.
pub fn askpass_script(passphrase: &str) -> (script: String)
    ensures
        script@ == askpass_text(passphrase@),
{
    let secret = chars_of(passphrase);
    let mut v = chars_of("#!/bin/sh\necho '");
    let ghost head = v@;
    let mut i: usize = 0;
    while i < secret.len()
        invariant
            i <= secret.len(),
            secret@ == passphrase@,
            v@ + quoted_from(secret@, i as int) == head + quoted_from(secret@, 0),
        decreases secret.len() - i,
    {
        let ghost before = v@;
        if secret[i] == '\'' {
            push_str(&mut v, "'\"'\"'");
            proof {
                assert(v@ + quoted_from(secret@, i + 1) =~= before + quoted_from(
                    secret@,
                    i as int,
                ));
            }
        } else {
            v.push(secret[i]);
            proof {
                assert(v@ + quoted_from(secret@, i + 1) =~= before + quoted_from(
                    secret@,
                    i as int,
                ));
            }
        }
        i += 1;
    }
    proof {
        assert(v@ + Seq::<char>::empty() =~= v@);
    }
    push_str(&mut v, "'\n");
    proof {
        assert(v@ =~= askpass_text(passphrase@));
    }
    string_of(&v)
}

/// What to tell the user when `ssh-add` has failed, given what it wrote to
/// its standard error.
pub open spec fn add_key_failure(stderr: Seq<char>, key_path: Seq<char>) -> Seq<char> {
    if contains(stderr, "Bad passphrase"@) || contains(stderr, "incorrect passphrase"@) {
        "Passphrase incorrecte"@
    } else if contains(stderr, "Could not open"@) {
        "Impossible d'ouvrir la cl\u{e9}: "@ + key_path
    } else {
        "Erreur ssh-add: "@ + stderr
    }
}

/// What to tell the user when `ssh-add` has failed.
pub fn add_key_error(stderr: &str, key_path: &str) -> (message: String)
    ensures
        message@ == add_key_failure(stderr@, key_path@),
{
    let text = chars_of(stderr);
    if vec_contains(&text, &chars_of("Bad passphrase")) || vec_contains(
        &text,
        &chars_of("incorrect passphrase"),
    ) {
        "Passphrase incorrecte".to_owned()
    } else if vec_contains(&text, &chars_of("Could not open")) {
        concat2("Impossible d'ouvrir la cl\u{e9}: ", key_path)
    } else {
        concat2("Erreur ssh-add: ", stderr)
    }
}

// ---------------------------------------------------------------------------
// Starting a job
// ---------------------------------------------------------------------------

/// The settings of the environment that Gurobi needs; nothing when no Gurobi
/// home is configured.
pub open spec fn gurobi_exports_text(home: Seq<char>, license_file: Seq<char>) -> Seq<char> {
    if home.len() == 0 {
        Seq::empty()
    } else {
        "export GUROBI_HOME=\""@ + home + "\"; export GRB_LICENSE_FILE=\""@ + license_file
            + "\"; export PATH=\"$PATH:$GUROBI_HOME/bin\"; export LD_LIBRARY_PATH=\"$LD_LIBRARY_PATH:$GUROBI_HOME/lib\"; "@
    }
}

/// The command that starts a job: one detached session, named after the
/// job, that sends all output to the log of the job, sets the environment,
/// goes to the directory of the project, brings its Python environment up to
/// date and runs the benchmark.
pub open spec fn launch_text(config: &AppConfig, project_name: Seq<char>, job_id: i64, benchmark_name: Seq<char>) -> Seq<
    char,
> {
    "tmux new-session -d -s job_"@ + signed_decimal(job_id as int) + " 'exec > "@
        + config.remote.remote_base@ + "/jobs/"@ + signed_decimal(job_id as int)
        + ".log 2>&1; export PYTHONUNBUFFERED=1; "@ + gurobi_exports_text(
        config.gurobi.home@,
        config.gurobi.license_file@,
    ) + "cd "@ + config.remote.remote_base@ + "/projects/"@ + project_name
        + " && echo \"=== Starting job ===\" && echo \"Working directory: $(pwd)\" && echo \"=== uv sync ===\" && "@
        + config.tools.uv_path@ + " sync && echo \"=== Running benchmark ===\" && "@
        + config.tools.uv_path@ + " run python code/"@ + benchmark_name
        + " ; echo \"=== Job finished with code: $? ===\"'"@
}

/// The command that starts a job in a detached session.
pub fn launch_command(config: &AppConfig, project_name: &str, job_id: i64, benchmark_name: &str) -> (command:
    String)
    ensures
        command@ == launch_text(config, project_name@, job_id, benchmark_name@),
{
    let mut v = chars_of("tmux new-session -d -s job_");
    push_signed_decimal(&mut v, job_id);
    push_str(&mut v, " 'exec > ");
    push_str(&mut v, config.remote.remote_base.as_str());
    push_str(&mut v, "/jobs/");
    push_signed_decimal(&mut v, job_id);
    push_str(&mut v, ".log 2>&1; export PYTHONUNBUFFERED=1; ");
    if config.gurobi.home.as_str().unicode_len() > 0 {
        push_str(&mut v, "export GUROBI_HOME=\"");
        push_str(&mut v, config.gurobi.home.as_str());
        push_str(&mut v, "\"; export GRB_LICENSE_FILE=\"");
        push_str(&mut v, config.gurobi.license_file.as_str());
        push_str(
            &mut v,
            "\"; export PATH=\"$PATH:$GUROBI_HOME/bin\"; export LD_LIBRARY_PATH=\"$LD_LIBRARY_PATH:$GUROBI_HOME/lib\"; ",
        );
    }
    push_str(&mut v, "cd ");
    push_str(&mut v, config.remote.remote_base.as_str());
    push_str(&mut v, "/projects/");
    push_str(&mut v, project_name);
    push_str(
        &mut v,
        " && echo \"=== Starting job ===\" && echo \"Working directory: $(pwd)\" && echo \"=== uv sync ===\" && ",
    );
    push_str(&mut v, config.tools.uv_path.as_str());
    push_str(&mut v, " sync && echo \"=== Running benchmark ===\" && ");
    push_str(&mut v, config.tools.uv_path.as_str());
    push_str(&mut v, " run python code/");
    push_str(&mut v, benchmark_name);
    push_str(&mut v, " ; echo \"=== Job finished with code: $? ===\"'");
    proof {
        assert(v@ =~= launch_text(config, project_name@, job_id, benchmark_name@));
    }
    string_of(&v)
}

/// The command that makes the remote directories of a job: the code
/// directory of its project and the directory of the logs.
pub fn job_dirs_command(config: &AppConfig, project_name: &str) -> (command: String)
    ensures
        command@ == "mkdir -p "@ + config.remote.remote_base@ + "/projects/"@ + project_name@
            + "/code "@ + config.remote.remote_base@ + "/jobs"@,
{
    let mut v = chars_of("mkdir -p ");
    push_str(&mut v, config.remote.remote_base.as_str());
    push_str(&mut v, "/projects/");
    push_str(&mut v, project_name);
    push_str(&mut v, "/code ");
    push_str(&mut v, config.remote.remote_base.as_str());
    push_str(&mut v, "/jobs");
    proof {
        assert(v@ =~= "mkdir -p "@ + config.remote.remote_base@ + "/projects/"@ + project_name@
            + "/code "@ + config.remote.remote_base@ + "/jobs"@);
    }
    string_of(&v)
}

/// The log of a job on the remote machine.
pub fn job_log_path(config: &AppConfig, job_id: i64) -> (path: String)
    ensures
        path@ == config.remote.remote_base@ + "/jobs/"@ + signed_decimal(job_id as int)
            + ".log"@,
{
    let mut v = chars_of(config.remote.remote_base.as_str());
    push_str(&mut v, "/jobs/");
    push_signed_decimal(&mut v, job_id);
    push_str(&mut v, ".log");
    proof {
        assert(v@ =~= config.remote.remote_base@ + "/jobs/"@ + signed_decimal(job_id as int)
            + ".log"@);
    }
    string_of(&v)
}

// ---------------------------------------------------------------------------
// The shared connection itself
// ---------------------------------------------------------------------------

/// The arguments of the `ssh` call that opens the shared connection and
/// leaves it open in the background.
pub fn control_master_start_args(config: &AppConfig, home: Option<&str>) -> (args: Vec<String>)
    ensures
        string_views(args@) == seq![
            "-o"@,
            "ControlMaster=yes"@,
            "-o"@,
            "ControlPath="@ + socket_text(crate::text::opt_str(home), config.ssh.host@),
            "-o"@,
            "ControlPersist=yes"@,
            "-N"@,
            "-f"@,
            config.ssh.user@ + "@"@ + config.ssh.host@,
        ],
{
    let socket = control_socket_path(config, home);
    let mut args: Vec<String> = Vec::new();
    args.push("-o".to_owned());
    args.push("ControlMaster=yes".to_owned());
    args.push("-o".to_owned());
    args.push(concat2("ControlPath=", socket.as_str()));
    args.push("-o".to_owned());
    args.push("ControlPersist=yes".to_owned());
    args.push("-N".to_owned());
    args.push("-f".to_owned());
    args.push(remote_login(config));
    proof {
        assert(string_views(args@) =~= seq![
            "-o"@,
            "ControlMaster=yes"@,
            "-o"@,
            "ControlPath="@ + socket_text(crate::text::opt_str(home), config.ssh.host@),
            "-o"@,
            "ControlPersist=yes"@,
            "-N"@,
            "-f"@,
            config.ssh.user@ + "@"@ + config.ssh.host@,
        ]);
    }
    args
}

/// The arguments of the `ssh` call that closes the shared connection.
pub fn control_master_stop_args(config: &AppConfig, home: Option<&str>) -> (args: Vec<String>)
    ensures
        string_views(args@) == seq![
            "-o"@,
            "ControlPath="@ + socket_text(crate::text::opt_str(home), config.ssh.host@),
            "-O"@,
            "exit"@,
            config.ssh.user@ + "@"@ + config.ssh.host@,
        ],
{
    let socket = control_socket_path(config, home);
    let mut args: Vec<String> = Vec::new();
    args.push("-o".to_owned());
    args.push(concat2("ControlPath=", socket.as_str()));
    args.push("-O".to_owned());
    args.push("exit".to_owned());
    args.push(remote_login(config));
    proof {
        assert(string_views(args@) =~= seq![
            "-o"@,
            "ControlPath="@ + socket_text(crate::text::opt_str(home), config.ssh.host@),
            "-O"@,
            "exit"@,
            config.ssh.user@ + "@"@ + config.ssh.host@,
        ]);
    }
    args
}

/// Whether a line of a dry run, white space aside, names one of the
/// manifests of a project.
pub open spec fn names_manifest(line: Seq<char>) -> bool {
    trim(line) == "pyproject.toml"@ || trim(line) == "uv.lock"@ || trim(line)
        == ".python-version"@
}

/// Those of the first `upto` lines that name a manifest, without the white
/// space around them.
pub open spec fn manifest_lines(all: Seq<Seq<char>>, upto: int) -> Seq<Seq<char>>
    decreases upto,
{
    if upto <= 0 || upto > all.len() {
        Seq::empty()
    } else if names_manifest(all[upto - 1]) {
        manifest_lines(all, upto - 1).push(trim(all[upto - 1]))
    } else {
        manifest_lines(all, upto - 1)
    }
}

/// The manifests that a dry run reports as changed.
pub fn manifest_changes(stdout: &str) -> (files: Vec<String>)
    ensures
        string_views(files@) == manifest_lines(lines(stdout@), lines(stdout@).len() as int),
{
    let all = lines_of(&chars_of(stdout));
    let ghost ls = views(all@);
    let a = chars_of("pyproject.toml");
    let b = chars_of("uv.lock");
    let c = chars_of(".python-version");
    let mut out: Vec<String> = Vec::new();
    let mut i: usize = 0;
    proof {
        assert(string_views(out@) =~= manifest_lines(ls, 0));
    }
    while i < all.len()
        invariant
            i <= all.len(),
            ls == views(all@),
            a@ == "pyproject.toml"@,
            b@ == "uv.lock"@,
            c@ == ".python-version"@,
            string_views(out@) == manifest_lines(ls, i as int),
        decreases all.len() - i,
    {
        assert(ls[i as int] == all@[i as int]@);
        let t = trim_chars(&all[i]);
        if vec_eq(&t, &a) || vec_eq(&t, &b) || vec_eq(&t, &c) {
            let ghost before = string_views(out@);
            out.push(string_of(&t));
            proof {
                assert(string_views(out@) =~= before.push(t@));
            }
        }
        i += 1;
    }
    out
}

/// Whether the key can be used through the agent, given whether there is an
/// agent, whether the key file exists, and, where `ssh-add` could be asked,
/// whether the agent holds the key.
pub fn agent_key_status(has_agent: bool, key_path: &str, key_exists: bool, held: Option<bool>) -> (status:
    SshKeyStatus)
    ensures
        !has_agent ==> status is NoAgent,
        has_agent && !key_exists ==> (status matches SshKeyStatus::NoKey { expected_path }
            && expected_path@ == key_path@),
        has_agent && key_exists ==> (match held {
            None => status is NoAgent,
            Some(true) => status is InAgent,
            Some(false) => status matches SshKeyStatus::NeedsPassphrase { key_path: p } && p@
                == key_path@,
        }),
{
    if !has_agent {
        return SshKeyStatus::NoAgent;
    }
    if !key_exists {
        return SshKeyStatus::NoKey { expected_path: key_path.to_owned() };
    }
    match held {
        None => SshKeyStatus::NoAgent,
        Some(true) => SshKeyStatus::InAgent,
        Some(false) => SshKeyStatus::NeedsPassphrase { key_path: key_path.to_owned() },
    }
}

} // verus!
