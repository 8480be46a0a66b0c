use solver_pilot::config::{
    default_key_path, default_port, default_uv_path, AppConfig, GurobiConfig, PollingConfig,
    QueueSettings, RemoteConfig, SshConfig, ToolsConfig,
};
use solver_pilot::ssh::auth::SshAuth;
use solver_pilot::ssh::control_master::{
    add_key_error, askpass_script, control_master_ssh_args, control_socket_path, job_dirs_command,
    job_log_path, key_in_agent, launch_command, remote_login, rsync_ssh_command,
};
use solver_pilot::ssh::error::{AuthMethod, SshError};
use solver_pilot::ssh::executor::{
    channel_error, connection_ok, job_session_name, session_exists, tail_logs_command,
    timeout_error, tmux_kill_session_command, tmux_send_ctrl_c_command,
    tmux_session_exists_command, ChannelEvent, CommandOutput, CommandResult,
};
use solver_pilot::ssh::pool::{
    client_settings, connect_timeout_error, judge_probe, pool_create_error, pool_get_error,
    pool_settings, Probe,
};
use solver_pilot::ssh::transfer::{
    build_mirror_args, changed_files, files_below, sync_status, transfer_error, SshTransfer,
};
use solver_pilot::ssh::{check_key_status, key_file, SshKeyStatus};
use solver_pilot::state::SyncStatus;

fn config(port: u16, gurobi: bool) -> AppConfig {
    AppConfig {
        ssh: SshConfig {
            host: "compute".to_string(),
            user: "alice".to_string(),
            port,
            key_path: "~/.ssh/id_rsa".to_string(),
        },
        remote: RemoteConfig { remote_base: "/srv/sp".to_string() },
        polling: PollingConfig { interval_seconds: 2 },
        gurobi: if gurobi {
            GurobiConfig { home: "/opt/gurobi".to_string(), license_file: "/opt/g.lic".to_string() }
        } else {
            GurobiConfig::default()
        },
        tools: ToolsConfig::default(),
        queue_settings: QueueSettings::default(),
    }
}

#[test]
fn configuration_defaults_and_paths() {
    assert_eq!(default_port(), 22);
    assert_eq!(default_uv_path(), "~/.local/bin/uv");
    assert_eq!(default_key_path(Some("/home/a")), "/home/a/.ssh/id_rsa");
    assert_eq!(default_key_path(None), "/home/.ssh/id_rsa");
    assert_eq!(ToolsConfig::default().uv_path, "~/.local/bin/uv");
    assert_eq!(GurobiConfig::default().home, "");
    let c = config(22, false);
    assert_eq!(c.remote_project_path("p"), "/srv/sp/projects/p");
    assert_eq!(c.remote_project_code_path("p"), "/srv/sp/projects/p/code");
    assert_eq!(c.remote_code_path(), "/srv/sp/code");
    assert_eq!(c.remote_jobs_path(), "/srv/sp/jobs");
    assert_eq!(c.remote_results_path(), "/srv/sp/results");
}

#[test]
fn ssh_error_messages() {
    assert_eq!(
        SshError::connection_failed("h", 2222, "refused").message(),
        "Connection to h:2222 failed: refused"
    );
    assert_eq!(
        SshError::auth_failed("alice", AuthMethod::PublicKey, "Server rejected authentication")
            .message(),
        "Authentication failed for user 'alice' with public key: Server rejected authentication"
    );
    assert_eq!(
        SshError::auth_failed("a", AuthMethod::Agent, "r").message(),
        "Authentication failed for user 'a' with ssh-agent: r"
    );
    assert_eq!(AuthMethod::Password.as_str(), "password");
    assert_eq!(AuthMethod::Certificate.as_str(), "certificate");
    assert_eq!(SshError::key_error("/k", "gone").message(), "Key error for '/k': gone");
    assert_eq!(
        channel_error("exec", "closed").message(),
        "Channel operation 'exec' failed: closed"
    );
    assert_eq!(
        SshError::command_failed("ls", Some(2), "no such").message(),
        "Command 'ls' failed with exit code 2: no such"
    );
    assert_eq!(
        SshError::command_failed("ls", None, "no such").message(),
        "Command 'ls' failed: no such"
    );
    assert_eq!(
        transfer_error("a", "b", "c").message(),
        "Transfer from 'a' to 'b' failed: c"
    );
    assert_eq!(
        SshError::PoolError { reason: "r".to_string() }.message(),
        "Connection pool error: r"
    );
    assert_eq!(
        SshError::ConfigError { field: "port".to_string(), reason: "r".to_string() }.message(),
        "Configuration error in 'port': r"
    );
    assert_eq!(
        SshError::timeout("command execution", 300).message(),
        "Operation 'command execution' timed out after 300 seconds"
    );
    assert_eq!(timeout_error(5).message(), "Operation 'command execution' timed out after 5 seconds");
    assert_eq!(
        SshError::RusshError { message: "m".to_string() }.message(),
        "SSH protocol error: m"
    );
    assert_eq!(SshError::IoError { message: "m".to_string() }.message(), "I/O error: m");
    assert_eq!(SshError::other("ctx").message(), "ctx");
    assert_eq!(
        SshError::timeout("x", 1).with_context("while y").with_context("outer").message(),
        "outer: while y: Operation 'x' timed out after 1 seconds"
    );
}

#[test]
fn command_results() {
    let good = CommandResult { stdout: "out".to_string(), stderr: "err".to_string(), exit_code: 0 };
    assert!(good.success());
    assert_eq!(good.clone().into_result().ok(), Some("out".to_string()));
    assert_eq!(good.into_stdout(), "out");
    let bad = CommandResult { stdout: "out".to_string(), stderr: "err".to_string(), exit_code: 3 };
    assert!(!bad.success());
    assert_eq!(
        bad.clone().into_result().err().map(|e| e.message()),
        Some("Command 'command' failed with exit code 3: err".to_string())
    );
    assert_eq!(bad.into_stdout(), "out");
}

#[test]
fn channel_messages_are_collected() {
    let mut out = CommandOutput::new();
    assert!(out.take(&ChannelEvent::Data(b"hel".to_vec())));
    assert!(out.take(&ChannelEvent::ExtendedData { data: b"oops".to_vec(), ext: 1 }));
    assert!(out.take(&ChannelEvent::ExtendedData { data: b"other".to_vec(), ext: 2 }));
    assert!(out.take(&ChannelEvent::Data(b"lo \xff".to_vec())));
    assert!(out.take(&ChannelEvent::ExitStatus(7)));
    assert!(out.take(&ChannelEvent::Eof));
    assert!(out.take(&ChannelEvent::Other));
    assert!(!out.take(&ChannelEvent::Close));
    let r = out.finish();
    assert_eq!(r.stdout, "hello \u{fffd}");
    assert_eq!(r.stderr, "oops");
    assert_eq!(r.exit_code, 7);
    let r = CommandOutput::new().finish();
    assert_eq!((r.stdout.as_str(), r.stderr.as_str(), r.exit_code), ("", "", 255));
}

#[test]
fn session_commands() {
    assert_eq!(
        tmux_session_exists_command("job_5"),
        "tmux has-session -t job_5 2>/dev/null && echo yes || echo no"
    );
    assert!(session_exists("yes\n"));
    assert!(!session_exists("no\n"));
    assert!(!session_exists("yes no"));
    assert!(connection_ok(" ok \n"));
    assert!(!connection_ok("okay"));
    assert_eq!(tmux_send_ctrl_c_command("job_5"), "tmux send-keys -t job_5 C-c");
    assert_eq!(tmux_kill_session_command("job_5"), "tmux kill-session -t job_5");
    assert_eq!(
        tail_logs_command("/srv/sp/jobs/5.log", 200),
        "tail -n 200 /srv/sp/jobs/5.log 2>/dev/null || echo ''"
    );
    assert_eq!(job_session_name(5), "job_5");
    assert_eq!(job_log_path(&config(22, false), 5), "/srv/sp/jobs/5.log");
}

#[test]
fn pool_settings_and_probes() {
    let p = pool_settings(10);
    assert_eq!(
        (p.max_size, p.connection_timeout_secs, p.idle_timeout_secs, p.max_lifetime_secs),
        (10, 10, 300, 3600)
    );
    let c = client_settings();
    assert_eq!(c.inactivity_timeout_secs, 300);
    assert_eq!(c.keepalive_interval_secs, 30);
    assert_eq!(c.window_size, 2_097_152);
    assert_eq!(c.maximum_packet_size, 32_768);
    assert_eq!(c.channel_buffer_size, 100);
    assert!(c.nodelay);
    assert!(judge_probe(&Probe::Passed).is_ok());
    assert_eq!(
        judge_probe(&Probe::Failed("eof".to_string())).err().map(|e| e.message()),
        Some("Health check failed: eof".to_string())
    );
    assert_eq!(
        judge_probe(&Probe::TimedOut).err().map(|e| e.message()),
        Some("Operation 'Health check' timed out after 5 seconds".to_string())
    );
    assert_eq!(
        connect_timeout_error().message(),
        "Operation 'SSH connection' timed out after 10 seconds"
    );
    assert_eq!(
        pool_create_error("x").message(),
        "Connection pool error: Failed to create pool: x"
    );
    assert_eq!(
        pool_get_error("x").message(),
        "Connection pool error: Failed to get connection from pool: x"
    );
}

#[test]
fn transfer_arguments() {
    let t = SshTransfer::new(config(22, false));
    assert_eq!(t.rsync_ssh_command(), "ssh -o StrictHostKeyChecking=accept-new");
    let t2 = SshTransfer::new(config(2222, false));
    assert_eq!(t2.rsync_ssh_command(), "ssh -o StrictHostKeyChecking=accept-new -p 2222");
    assert_eq!(t.remote_project_target("p"), "alice@compute:/srv/sp/projects/p/");
    assert_eq!(t.remote_code_target("p"), "alice@compute:/srv/sp/projects/p/code/");
    assert_eq!(t.remote_source("/srv/sp/results"), "alice@compute:/srv/sp/results");
    assert_eq!(
        t2.project_sync_args("p", "/local/p"),
        vec![
            "-avz",
            "--delete",
            "--include",
            "pyproject.toml",
            "--include",
            "uv.lock",
            "--include",
            ".python-version",
            "--exclude",
            "*",
            "-e",
            "ssh -o StrictHostKeyChecking=accept-new -p 2222",
            "/local/p/",
            "alice@compute:/srv/sp/projects/p/",
        ]
    );
    assert_eq!(
        build_mirror_args(&vec![], "ssh", "a/", "b/"),
        vec!["-avz", "--delete", "--exclude", "*", "-e", "ssh", "a/", "b/"]
    );
    assert_eq!(
        t.dry_run_args("p", "/local/p"),
        vec![
            "-avzn",
            "--include=pyproject.toml",
            "--include=uv.lock",
            "--include=.python-version",
            "--exclude=*",
            "--out-format=%n",
            "-e",
            "ssh -o StrictHostKeyChecking=accept-new",
            "/local/p/",
            "alice@compute:/srv/sp/projects/p/",
        ]
    );
    assert_eq!(
        t.file_list_args("p", "/code", "/tmp/list.txt"),
        vec![
            "-avz",
            "--files-from",
            "/tmp/list.txt",
            "-e",
            "ssh -o StrictHostKeyChecking=accept-new",
            "/code/",
            "alice@compute:/srv/sp/projects/p/code/",
        ]
    );
    assert_eq!(
        t.download_args("/srv/sp/results", "./results"),
        vec![
            "-avz",
            "-e",
            "ssh -o StrictHostKeyChecking=accept-new",
            "alice@compute:/srv/sp/results",
            "./results",
        ]
    );
}

#[test]
fn files_of_a_transfer() {
    let files = vec![
        "/code/bench.py".to_string(),
        "/code/solvers/a.py".to_string(),
        "/elsewhere/x.py".to_string(),
        "/codex/y.py".to_string(),
        "/code".to_string(),
        "/code/".to_string(),
    ];
    assert_eq!(files_below("/code", &files), vec!["bench.py", "solvers/a.py"]);
    assert_eq!(files_below("/code///", &files), vec!["bench.py", "solvers/a.py"]);
    assert_eq!(files_below("/", &vec!["/a".to_string()]), vec!["a"]);
    assert!(files_below("/code", &vec![]).is_empty());
    assert_eq!(
        changed_files("sending incremental file list\n./\npyproject.toml\nsub/\n\nuv.lock\n"),
        vec!["sending incremental file list", "pyproject.toml", "uv.lock"]
    );
    assert!(changed_files("").is_empty());
}

#[test]
fn sync_states() {
    assert!(matches!(sync_status(Ok(vec![])), SyncStatus::UpToDate));
    match sync_status(Ok(vec!["a".to_string(), "b".to_string()])) {
        SyncStatus::Modified { count, files } => {
            assert_eq!(count, 2);
            assert_eq!(files, vec!["a", "b"]);
        }
        other => panic!("{other:?}"),
    }
    match sync_status(Err(transfer_error("l", "r", "rsync dry-run failed"))) {
        SyncStatus::Error { message } => {
            assert_eq!(message, "Transfer from 'l' to 'r' failed: rsync dry-run failed")
        }
        other => panic!("{other:?}"),
    }
}

#[test]
fn key_states() {
    let key = SshAuth::key("~/.ssh/id");
    assert_eq!(key_file(&key, Some("/home/a")), "/home/a/.ssh/id");
    assert_eq!(key_file(&key, None), "./.ssh/id");
    assert_eq!(key_file(&SshAuth::agent("/k"), Some("/home/a")), "/k");
    assert!(matches!(
        check_key_status(&key, Some("/home/a"), false, false),
        SshKeyStatus::NoKey { expected_path } if expected_path == "/home/a/.ssh/id"
    ));
    assert!(matches!(check_key_status(&key, None, true, true), SshKeyStatus::Ready));
    assert!(matches!(
        check_key_status(&key, None, true, false),
        SshKeyStatus::NeedsPassphrase { key_path } if key_path == "~/.ssh/id"
    ));
    let with = SshAuth::key_with_passphrase("/k", "pw");
    assert!(matches!(check_key_status(&with, None, true, false), SshKeyStatus::Ready));
    assert!(matches!(
        check_key_status(&SshAuth::agent("/k"), None, true, false),
        SshKeyStatus::Ready
    ));
    assert!(matches!(
        check_key_status(&SshAuth::agent("/k"), None, false, true),
        SshKeyStatus::NoKey { expected_path } if expected_path == "/k"
    ));
}

#[test]
fn shared_connection() {
    let c = config(22, false);
    assert_eq!(
        control_socket_path(&c, Some("/home/a")),
        "/home/a/.ssh/benchmark-runner-compute.sock"
    );
    assert_eq!(control_socket_path(&c, None), "/tmp/.ssh/benchmark-runner-compute.sock");
    assert_eq!(
        control_master_ssh_args(&c, Some("/home/a")),
        vec![
            "-o",
            "ControlPath=/home/a/.ssh/benchmark-runner-compute.sock",
            "-o",
            "ControlMaster=no",
        ]
    );
    assert_eq!(
        rsync_ssh_command(&c, Some("/home/a")),
        "ssh -o ControlPath=/home/a/.ssh/benchmark-runner-compute.sock -o ControlMaster=no"
    );
    assert_eq!(remote_login(&c), "alice@compute");
}

#[test]
fn the_agent() {
    let list = "256 SHA256:abcDEF alice@host (ED25519)\n3072 SHA256:zzz other (RSA)\n";
    assert!(key_in_agent(list, "256 SHA256:abcDEF /home/a/.ssh/id (ED25519)\n"));
    assert!(!key_in_agent(list, "256 SHA256:nope /home/a/.ssh/id (ED25519)\n"));
    assert!(!key_in_agent(list, "oneword"));
    assert!(!key_in_agent(list, ""));
    assert_eq!(askpass_script("pw"), "#!/bin/sh\necho 'pw'\n");
    assert_eq!(askpass_script("it's"), "#!/bin/sh\necho 'it'\"'\"'s'\n");
    assert_eq!(askpass_script(""), "#!/bin/sh\necho ''\n");
    assert_eq!(add_key_error("Bad passphrase, try again", "/k"), "Passphrase incorrecte");
    assert_eq!(add_key_error("x incorrect passphrase y", "/k"), "Passphrase incorrecte");
    assert_eq!(
        add_key_error("Could not open /k", "/k"),
        "Impossible d'ouvrir la cl\u{e9}: /k"
    );
    assert_eq!(add_key_error("other", "/k"), "Erreur ssh-add: other");
}

#[test]
fn launching_a_job() {
    assert_eq!(
        launch_command(&config(22, false), "proj", 7, "bench.py"),
        "tmux new-session -d -s job_7 'exec > /srv/sp/jobs/7.log 2>&1; export PYTHONUNBUFFERED=1; cd /srv/sp/projects/proj && echo \"=== Starting job ===\" && echo \"Working directory: $(pwd)\" && echo \"=== uv sync ===\" && ~/.local/bin/uv sync && echo \"=== Running benchmark ===\" && ~/.local/bin/uv run python code/bench.py ; echo \"=== Job finished with code: $? ===\"'"
    );
    assert_eq!(
        launch_command(&config(22, true), "proj", 7, "bench.py"),
        "tmux new-session -d -s job_7 'exec > /srv/sp/jobs/7.log 2>&1; export PYTHONUNBUFFERED=1; export GUROBI_HOME=\"/opt/gurobi\"; export GRB_LICENSE_FILE=\"/opt/g.lic\"; export PATH=\"$PATH:$GUROBI_HOME/bin\"; export LD_LIBRARY_PATH=\"$LD_LIBRARY_PATH:$GUROBI_HOME/lib\"; cd /srv/sp/projects/proj && echo \"=== Starting job ===\" && echo \"Working directory: $(pwd)\" && echo \"=== uv sync ===\" && ~/.local/bin/uv sync && echo \"=== Running benchmark ===\" && ~/.local/bin/uv run python code/bench.py ; echo \"=== Job finished with code: $? ===\"'"
    );
    assert_eq!(
        job_dirs_command(&config(22, false), "proj"),
        "mkdir -p /srv/sp/projects/proj/code /srv/sp/jobs"
    );
}

#[test]
fn test_client_config_creation() {
    let settings = client_settings();
    let config = russh::client::Config {
        inactivity_timeout: Some(std::time::Duration::from_secs(settings.inactivity_timeout_secs)),
        keepalive_interval: Some(std::time::Duration::from_secs(settings.keepalive_interval_secs)),
        window_size: settings.window_size,
        maximum_packet_size: settings.maximum_packet_size,
        channel_buffer_size: settings.channel_buffer_size,
        nodelay: settings.nodelay,
        ..Default::default()
    };

    assert!(config.inactivity_timeout.is_some());
    assert!(config.keepalive_interval.is_some());

    assert!(!config.preferred.kex.is_empty());
    assert!(!config.preferred.key.is_empty());
    assert!(!config.preferred.cipher.is_empty());

    assert!(config.nodelay);
}
