//! Bringing files to the remote machine with `rsync`: the arguments of the
//! calls and what is made of their output.

use vstd::prelude::*;
use crate::config::AppConfig;
use crate::lines::{lines, lines_of};
use crate::numbers::{decimal, push_decimal};
use crate::paths::bare_len;
use crate::ssh::error::SshError;
use crate::state::SyncStatus;
use crate::text::{chars_of, push_str, slice_of, string_of, string_views, vec_eq, views};

verus! {

/// The file transfer to the configured remote machine.
#[derive(Clone)]
pub struct SshTransfer {
    config: AppConfig,
}

/// The remote shell that `rsync` uses: `ssh` that takes the key of a host it
/// sees for the first time, on the configured port where that is not 22.
pub open spec fn ssh_command_text(port: u16) -> Seq<char> {
    if port == 22 {
        "ssh -o StrictHostKeyChecking=accept-new"@
    } else {
        "ssh -o StrictHostKeyChecking=accept-new -p "@ + decimal(port as nat)
    }
}

/// The remote directory of a project as `rsync` names it.
pub open spec fn project_target(config: &AppConfig, project_name: Seq<char>) -> Seq<char> {
    config.ssh.user@ + "@"@ + config.ssh.host@ + ":"@ + config.remote.remote_base@
        + "/projects/"@ + project_name + "/"@
}

/// The arguments of a mirroring `rsync` call that is held to the files of a
/// list: every file of the list is included, everything else is left out,
/// and of the files of the list those that are gone locally are deleted on
/// the other side.
pub open spec fn mirror_args(
    includes: Seq<Seq<char>>,
    shell: Seq<char>,
    local: Seq<char>,
    remote: Seq<char>,
) -> Seq<Seq<char>> {
    seq!["-avz"@, "--delete"@] + include_args(includes, includes.len() as int) + seq![
        "--exclude"@,
        "*"@,
        "-e"@,
        shell,
        local,
        remote,
    ]
}

/// `--include` and the file, for each of the first `upto` files.
pub open spec fn include_args(includes: Seq<Seq<char>>, upto: int) -> Seq<Seq<char>>
    decreases upto,
{
    if upto <= 0 || upto > includes.len() {
        Seq::empty()
    } else {
        include_args(includes, upto - 1) + seq!["--include"@, includes[upto - 1]]
    }
}

/// The files of a project that are mirrored: its manifest, its lock file
/// and its Python version.
pub open spec fn manifest_files() -> Seq<Seq<char>> {
    seq!["pyproject.toml"@, "uv.lock"@, ".python-version"@]
}

fn manifests() -> (files: Vec<String>)
    ensures
        string_views(files@) == manifest_files(),
{
    let mut files: Vec<String> = Vec::new();
    files.push("pyproject.toml".to_owned());
    files.push("uv.lock".to_owned());
    files.push(".python-version".to_owned());
    proof {
        assert(string_views(files@) =~= manifest_files());
    }
    files
}

fn push_arg(args: &mut Vec<String>, arg: &str)
    ensures
        string_views(final(args)@) == string_views(old(args)@).push(arg@),
{
    args.push(arg.to_owned());
    proof {
        assert(string_views(args@) =~= string_views(old(args)@).push(arg@));
    }
}

/// The arguments of a mirroring `rsync` call that is held to the files of a
/// list.
pub fn build_mirror_args(includes: &Vec<String>, shell: &str, local: &str, remote: &str) -> (args:
    Vec<String>)
    ensures
        string_views(args@) == mirror_args(string_views(includes@), shell@, local@, remote@),
{
    let ghost inc = string_views(includes@);
    let mut args: Vec<String> = Vec::new();
    push_arg(&mut args, "-avz");
    push_arg(&mut args, "--delete");
    let mut i: usize = 0;
    while i < includes.len()
        invariant
            i <= includes.len(),
            inc == string_views(includes@),
            string_views(args@) == seq!["-avz"@, "--delete"@] + include_args(inc, i as int),
        decreases includes.len() - i,
    {
        assert(inc[i as int] == includes@[i as int]@);
        push_arg(&mut args, "--include");
        push_arg(&mut args, includes[i].as_str());
        proof {
            assert(string_views(args@) =~= seq!["-avz"@, "--delete"@] + include_args(inc, i + 1));
        }
        i += 1;
    }
    push_arg(&mut args, "--exclude");
    push_arg(&mut args, "*");
    push_arg(&mut args, "-e");
    push_arg(&mut args, shell);
    push_arg(&mut args, local);
    push_arg(&mut args, remote);
    proof {
        assert(string_views(args@) =~= mirror_args(inc, shell@, local@, remote@));
    }
    args
}

impl SshTransfer {
    /// The configuration of the transfer.
    pub closed spec fn config(&self) -> &AppConfig {
        &self.config
    }

    /// A transfer to the machine of the configuration.
    pub fn new(config: AppConfig) -> (transfer: SshTransfer)
        ensures
            *transfer.config() == config,
    {
        SshTransfer { config }
    }

    /// The remote shell that `rsync` uses.
    pub fn rsync_ssh_command(&self) -> (command: String)
        ensures
            command@ == ssh_command_text(self.config().ssh.port),
    {
        let mut v = chars_of("ssh -o StrictHostKeyChecking=accept-new");
        if self.config.ssh.port != 22 {
            push_str(&mut v, " -p ");
            push_decimal(&mut v, self.config.ssh.port as u64);
            proof {
                assert(v@ =~= "ssh -o StrictHostKeyChecking=accept-new -p "@ + decimal(
                    self.config.ssh.port as nat,
                )) by {
                    reveal_strlit("ssh -o StrictHostKeyChecking=accept-new");
                    reveal_strlit(" -p ");
                    reveal_strlit("ssh -o StrictHostKeyChecking=accept-new -p ");
                    assert("ssh -o StrictHostKeyChecking=accept-new"@ + " -p "@
                        =~= "ssh -o StrictHostKeyChecking=accept-new -p "@);
                }
            }
        }
        string_of(&v)
    }

    /// The remote directory of a project as `rsync` names it.
    pub fn remote_project_target(&self, project_name: &str) -> (target: String)
        ensures
            target@ == project_target(self.config(), project_name@),
    {
        let mut v = chars_of(self.config.ssh.user.as_str());
        push_str(&mut v, "@");
        push_str(&mut v, self.config.ssh.host.as_str());
        push_str(&mut v, ":");
        push_str(&mut v, self.config.remote.remote_base.as_str());
        push_str(&mut v, "/projects/");
        push_str(&mut v, project_name);
        push_str(&mut v, "/");
        proof {
            assert(v@ =~= project_target(self.config(), project_name@));
        }
        string_of(&v)
    }

    /// The remote directory of the code of a project as `rsync` names it.
    pub fn remote_code_target(&self, project_name: &str) -> (target: String)
        ensures
            target@ == project_target(self.config(), project_name@) + "code/"@,
    {
        let t = self.remote_project_target(project_name);
        crate::text::concat2(t.as_str(), "code/")
    }

    /// A remote path as `rsync` names it.
    pub fn remote_source(&self, remote_path: &str) -> (source: String)
        ensures
            source@ == self.config().ssh.user@ + "@"@ + self.config().ssh.host@ + ":"@
                + remote_path@,
    {
        let mut v = chars_of(self.config.ssh.user.as_str());
        push_str(&mut v, "@");
        push_str(&mut v, self.config.ssh.host.as_str());
        push_str(&mut v, ":");
        push_str(&mut v, remote_path);
        proof {
            assert(v@ =~= self.config().ssh.user@ + "@"@ + self.config().ssh.host@ + ":"@
                + remote_path@);
        }
        string_of(&v)
    }

    /// The arguments of the `rsync` call that mirrors the manifests of a
    /// project into its remote directory, and nothing else.
    pub fn project_sync_args(&self, project_name: &str, project_dir: &str) -> (args: Vec<String>)
        ensures
            string_views(args@) == mirror_args(
                manifest_files(),
                ssh_command_text(self.config().ssh.port),
                project_dir@ + "/"@,
                project_target(self.config(), project_name@),
            ),
    {
        let shell = self.rsync_ssh_command();
        let local = crate::text::concat2(project_dir, "/");
        let remote = self.remote_project_target(project_name);
        build_mirror_args(&manifests(), shell.as_str(), local.as_str(), remote.as_str())
    }

    /// The arguments of the `rsync` call that tells which manifests of a
    /// project differ from the remote copy, without changing anything.
    pub fn dry_run_args(&self, project_name: &str, project_dir: &str) -> (args: Vec<String>)
        ensures
            string_views(args@) == seq![
                "-avzn"@,
                "--include=pyproject.toml"@,
                "--include=uv.lock"@,
                "--include=.python-version"@,
                "--exclude=*"@,
                "--out-format=%n"@,
                "-e"@,
                ssh_command_text(self.config().ssh.port),
                project_dir@ + "/"@,
                project_target(self.config(), project_name@),
            ],
    {
        let mut args: Vec<String> = Vec::new();
        push_arg(&mut args, "-avzn");
        push_arg(&mut args, "--include=pyproject.toml");
        push_arg(&mut args, "--include=uv.lock");
        push_arg(&mut args, "--include=.python-version");
        push_arg(&mut args, "--exclude=*");
        push_arg(&mut args, "--out-format=%n");
        push_arg(&mut args, "-e");
        push_arg(&mut args, self.rsync_ssh_command().as_str());
        push_arg(&mut args, crate::text::concat2(project_dir, "/").as_str());
        push_arg(&mut args, self.remote_project_target(project_name).as_str());
        proof {
            assert(string_views(args@) =~= seq![
                "-avzn"@,
                "--include=pyproject.toml"@,
                "--include=uv.lock"@,
                "--include=.python-version"@,
                "--exclude=*"@,
                "--out-format=%n"@,
                "-e"@,
                ssh_command_text(self.config().ssh.port),
                project_dir@ + "/"@,
                project_target(self.config(), project_name@),
            ]);
        }
        args
    }

    /// The arguments of the `rsync` call that brings the files named in a
    /// list file, and no others, from a local directory into the code
    /// directory of a project.
    pub fn file_list_args(&self, project_name: &str, benchmark_dir: &str, list_file: &str) -> (args:
        Vec<String>)
        ensures
            string_views(args@) == seq![
                "-avz"@,
                "--files-from"@,
                list_file@,
                "-e"@,
                ssh_command_text(self.config().ssh.port),
                benchmark_dir@ + "/"@,
                project_target(self.config(), project_name@) + "code/"@,
            ],
    {
        let mut args: Vec<String> = Vec::new();
        push_arg(&mut args, "-avz");
        push_arg(&mut args, "--files-from");
        push_arg(&mut args, list_file);
        push_arg(&mut args, "-e");
        push_arg(&mut args, self.rsync_ssh_command().as_str());
        push_arg(&mut args, crate::text::concat2(benchmark_dir, "/").as_str());
        push_arg(&mut args, self.remote_code_target(project_name).as_str());
        proof {
            assert(string_views(args@) =~= seq![
                "-avz"@,
                "--files-from"@,
                list_file@,
                "-e"@,
                ssh_command_text(self.config().ssh.port),
                benchmark_dir@ + "/"@,
                project_target(self.config(), project_name@) + "code/"@,
            ]);
        }
        args
    }

    /// The arguments of the `rsync` call that fetches a remote path.
    pub fn download_args(&self, remote_path: &str, local_path: &str) -> (args: Vec<String>)
        ensures
            string_views(args@) == seq![
                "-avz"@,
                "-e"@,
                ssh_command_text(self.config().ssh.port),
                self.config().ssh.user@ + "@"@ + self.config().ssh.host@ + ":"@ + remote_path@,
                local_path@,
            ],
    {
        let mut args: Vec<String> = Vec::new();
        push_arg(&mut args, "-avz");
        push_arg(&mut args, "-e");
        push_arg(&mut args, self.rsync_ssh_command().as_str());
        push_arg(&mut args, self.remote_source(remote_path).as_str());
        push_arg(&mut args, local_path);
        proof {
            assert(string_views(args@) =~= seq![
                "-avz"@,
                "-e"@,
                ssh_command_text(self.config().ssh.port),
                self.config().ssh.user@ + "@"@ + self.config().ssh.host@ + ":"@ + remote_path@,
                local_path@,
            ]);
        }
        args
    }
}

// ---------------------------------------------------------------------------
// Paths below a directory
// ---------------------------------------------------------------------------

/// The path of `file` as seen from the directory `dir`, for a file that lies
/// in it or below it; trailing slashes of `dir` do not count.
pub open spec fn relative_to(file: Seq<char>, dir: Seq<char>) -> Option<Seq<char>> {
    let n = bare_len(dir, dir.len() as int);
    if file.len() > n + 1 && file.take(n) == dir.take(n) && file[n] == '/' {
        Some(file.skip(n + 1))
    } else {
        None
    }
}

/// The paths, as seen from `dir`, of those of the first `upto` files that
/// lie below `dir`.
pub open spec fn relative_files(files: Seq<Seq<char>>, dir: Seq<char>, upto: int) -> Seq<
    Seq<char>,
>
    decreases upto,
{
    if upto <= 0 || upto > files.len() {
        Seq::empty()
    } else {
        match relative_to(files[upto - 1], dir) {
            Some(rel) => relative_files(files, dir, upto - 1).push(rel),
            None => relative_files(files, dir, upto - 1),
        }
    }
}

fn relative_path(file: &Vec<char>, dir: &Vec<char>) -> (r: Option<Vec<char>>)
    ensures
        match (r, relative_to(file@, dir@)) {
            (Some(rel), Some(s)) => rel@ == s,
            (None, None) => true,
            _ => false,
        },
{
    let mut n: usize = dir.len();
    while n > 0 && dir[n - 1] == '/'
        invariant
            n <= dir.len(),
            bare_len(dir@, dir@.len() as int) == bare_len(dir@, n as int),
        decreases n,
    {
        n -= 1;
    }
    if file.len() <= n || file.len() - n <= 1 {
        return None;
    }
    let head = slice_of(file, 0, n);
    let base = slice_of(dir, 0, n);
    if !vec_eq(&head, &base) || file[n] != '/' {
        return None;
    }
    let rest = slice_of(file, n + 1, file.len());
    proof {
        assert(rest@ =~= file@.skip(n + 1));
    }
    Some(rest)
}

/// The files to name in the list file of a transfer: of `files`, those that
/// lie below `dir`, each by its path as seen from `dir`. Files elsewhere are
/// left out.
pub fn files_below(dir: &str, files: &Vec<String>) -> (out: Vec<String>)
    ensures
        string_views(out@) == relative_files(string_views(files@), dir@, files.len() as int),
{
    let ghost all = string_views(files@);
    let base = chars_of(dir);
    let mut out: Vec<String> = Vec::new();
    let mut i: usize = 0;
    proof {
        assert(string_views(out@) =~= relative_files(all, dir@, 0));
    }
    while i < files.len()
        invariant
            i <= files.len(),
            all == string_views(files@),
            base@ == dir@,
            string_views(out@) == relative_files(all, dir@, i as int),
        decreases files.len() - i,
    {
        assert(all[i as int] == files@[i as int]@);
        match relative_path(&chars_of(files[i].as_str()), &base) {
            Some(rel) => {
                let ghost before = string_views(out@);
                out.push(string_of(&rel));
                proof {
                    assert(string_views(out@) =~= before.push(rel@));
                }
            },
            None => {},
        }
        i += 1;
    }
    out
}

// ---------------------------------------------------------------------------
// The answer of a dry run
// ---------------------------------------------------------------------------

/// Whether a line of a dry run names a file: it is not empty and does not
/// end with a slash, as the names of directories do.
pub open spec fn names_file(line: Seq<char>) -> bool {
    line.len() > 0 && line.last() != '/'
}

/// Those of the first `upto` lines that name a file.
pub open spec fn file_lines(all: Seq<Seq<char>>, upto: int) -> Seq<Seq<char>>
    decreases upto,
{
    if upto <= 0 || upto > all.len() {
        Seq::empty()
    } else if names_file(all[upto - 1]) {
        file_lines(all, upto - 1).push(all[upto - 1])
    } else {
        file_lines(all, upto - 1)
    }
}

/// The files that a dry run reports as changed.
pub fn changed_files(stdout: &str) -> (files: Vec<String>)
    ensures
        string_views(files@) == file_lines(lines(stdout@), lines(stdout@).len() as int),
{
    let all = lines_of(&chars_of(stdout));
    let ghost ls = views(all@);
    let mut out: Vec<String> = Vec::new();
    let mut i: usize = 0;
    proof {
        assert(string_views(out@) =~= file_lines(ls, 0));
    }
    while i < all.len()
        invariant
            i <= all.len(),
            ls == views(all@),
            string_views(out@) == file_lines(ls, i as int),
        decreases all.len() - i,
    {
        assert(ls[i as int] == all@[i as int]@);
        let n = all[i].len();
        if n > 0 && all[i][n - 1] != '/' {
            let ghost before = string_views(out@);
            out.push(string_of(&all[i]));
            proof {
                assert(string_views(out@) =~= before.push(all@[i as int]@));
            }
        }
        i += 1;
    }
    out
}

/// What a dry run says of a project: up to date when no file differs,
/// modified with the files that differ otherwise. A dry run that failed is
/// reported as an error, with its message.
pub fn sync_status(dry_run: Result<Vec<String>, SshError>) -> (status: SyncStatus)
    ensures
        match dry_run {
            Ok(files) => if files.len() == 0 {
                status is UpToDate
            } else {
                status matches SyncStatus::Modified { count, files: f } && count == files.len()
                    && f == files
            },
            Err(e) => status matches SyncStatus::Error { message } && message@ == e.text(),
        },
{
    match dry_run {
        Ok(files) => {
            if files.len() == 0 {
                SyncStatus::UpToDate
            } else {
                SyncStatus::Modified { count: files.len(), files }
            }
        },
        Err(e) => SyncStatus::Error { message: e.message() },
    }
}

/// The error of an `rsync` call that could not be made or that failed.
pub fn transfer_error(source: &str, destination: &str, reason: &str) -> (e: SshError)
    ensures
        e matches SshError::TransferError { source: s, destination: d, reason: r } && s@
            == source@ && d@ == destination@ && r@ == reason@,
{
    SshError::TransferError {
        source: source.to_owned(),
        destination: destination.to_owned(),
        reason: reason.to_owned(),
    }
}

} // verus!
