//! The configuration of the application and the remote paths that follow
//! from it.

use vstd::prelude::*;
use crate::paths::{inside, AppPaths};
use crate::text::{concat2, concat3, opt_str};

verus! {

/// What to do when a benchmark is queued that already has a job waiting or
/// running.
#[derive(Debug, Clone, Copy, PartialEq, Eq, Structural)]
pub enum DuplicateHandling {
    /// Refuse, and tell which statuses the existing jobs have, so that the
    /// caller can ask again with force.
    Warn,
    /// Refuse.
    Prevent,
    /// Queue it all the same.
    Allow,
}

/// Settings of the queue.
#[derive(Debug, Clone, Copy, PartialEq, Eq, Structural)]
pub struct QueueSettings {
    pub duplicate_handling: DuplicateHandling,
}

impl Default for QueueSettings {
    fn default() -> (settings: QueueSettings)
        ensures
            settings.duplicate_handling == DuplicateHandling::Warn,
    {
        QueueSettings { duplicate_handling: DuplicateHandling::Warn }
    }
}

/// How to reach the remote machine.
#[derive(Debug, Clone)]
pub struct SshConfig {
    pub host: String,
    pub user: String,
    pub port: u16,
    pub key_path: String,
}

/// Where the remote machine keeps the files of the application.
#[derive(Debug, Clone)]
pub struct RemoteConfig {
    pub remote_base: String,
}

/// How often a running job is looked at.
#[derive(Debug, Clone)]
pub struct PollingConfig {
    pub interval_seconds: u64,
}

/// The Gurobi installation of the remote machine; empty strings when there
/// is none.
#[derive(Debug, Clone)]
pub struct GurobiConfig {
    pub home: String,
    pub license_file: String,
}

impl Default for GurobiConfig {
    fn default() -> (config: GurobiConfig)
        ensures
            config.home@ == Seq::<char>::empty(),
            config.license_file@ == Seq::<char>::empty(),
    {
        GurobiConfig { home: String::new(), license_file: String::new() }
    }
}

/// The tools of the remote machine.
#[derive(Debug, Clone)]
pub struct ToolsConfig {
    pub uv_path: String,
}

impl Default for ToolsConfig {
    fn default() -> (config: ToolsConfig)
        ensures
            config.uv_path@ == "~/.local/bin/uv"@,
    {
        ToolsConfig { uv_path: default_uv_path() }
    }
}

/// The configuration of the application.
#[derive(Debug, Clone)]
pub struct AppConfig {
    pub ssh: SshConfig,
    pub remote: RemoteConfig,
    pub polling: PollingConfig,
    pub gurobi: GurobiConfig,
    pub tools: ToolsConfig,
    pub queue_settings: QueueSettings,
}

/// The SSH port used when none is configured.
pub fn default_port() -> (port: u16)
    ensures
        port == 22,
{
    22
}

/// The key used when none is configured: `id_rsa` in the `.ssh` directory of
/// the home directory, which is taken to be `/home` when it is not known.
pub open spec fn default_key_text(home: Option<Seq<char>>) -> Seq<char> {
    (match home {
        Some(h) => h,
        None => "/home"@,
    }) + "/.ssh/id_rsa"@
}

/// The key used when none is configured.
pub fn default_key_path(home: Option<&str>) -> (path: String)
    ensures
        path@ == default_key_text(opt_str(home)),
{
    match home {
        Some(h) => concat2(h, "/.ssh/id_rsa"),
        None => concat2("/home", "/.ssh/id_rsa"),
    }
}

/// The path of `uv` used when none is configured.
pub fn default_uv_path() -> (path: String)
    ensures
        path@ == "~/.local/bin/uv"@,
{
    "~/.local/bin/uv".to_owned()
}

impl AppConfig {
    /// The remote directory of a project.
    pub fn remote_project_path(&self, project_name: &str) -> (path: String)
        ensures
            path@ == self.remote.remote_base@ + "/projects/"@ + project_name@,
    {
        concat3(self.remote.remote_base.as_str(), "/projects/", project_name)
    }

    /// The remote directory of the code of a project.
    pub fn remote_project_code_path(&self, project_name: &str) -> (path: String)
        ensures
            path@ == self.remote.remote_base@ + "/projects/"@ + project_name@ + "/code"@,
    {
        let p = self.remote_project_path(project_name);
        concat2(p.as_str(), "/code")
    }

    /// The remote directory of code that belongs to no project.
    pub fn remote_code_path(&self) -> (path: String)
        ensures
            path@ == self.remote.remote_base@ + "/code"@,
    {
        concat2(self.remote.remote_base.as_str(), "/code")
    }

    /// The remote directory of the job logs, shared by all projects.
    pub fn remote_jobs_path(&self) -> (path: String)
        ensures
            path@ == self.remote.remote_base@ + "/jobs"@,
    {
        concat2(self.remote.remote_base.as_str(), "/jobs")
    }

    /// The remote directory of the results.
    pub fn remote_results_path(&self) -> (path: String)
        ensures
            path@ == self.remote.remote_base@ + "/results"@,
    {
        concat2(self.remote.remote_base.as_str(), "/results")
    }

    /// The path of the database file. Refused while the directories of the
    /// application are not known.
    pub fn db_path(paths: &Option<AppPaths>) -> (r: Result<String, String>)
        ensures
            match (r, *paths) {
                (Ok(path), Some(p)) => path@ == inside(p.data_dir@, "solver-pilot.db"@),
                (Err(e), None) => e@ == "paths::init() must be called before db_path()"@,
                _ => false,
            },
    {
        crate::paths::db_path(paths)
    }
}

} // verus!
