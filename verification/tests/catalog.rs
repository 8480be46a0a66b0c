use solver_pilot::catalog::{
    benchmark_exists, delete_benchmark, delete_project, get_benchmark_by_id,
    get_benchmarks_for_project, get_project, insert_benchmark, insert_benchmark_at,
    insert_project, insert_project_at, list_projects, update_project_python_version_at, Catalog,
    CatalogError,
};
use solver_pilot::db::{count_to_store, job_from_columns};
use solver_pilot::paths::{file_name, is_python_file};
use solver_pilot::python_deps::{declared_name, is_declared, parse_pyproject_deps};
use solver_pilot::queue_service::project_name_of;
use solver_pilot::ssh::control_master::{
    agent_key_status, control_master_start_args, control_master_stop_args, manifest_changes,
    SshKeyStatus,
};
use solver_pilot::state::JobStatus;

fn filled() -> (Catalog, i64, i64) {
    let mut c = Catalog::new();
    let zeta = insert_project_at(&mut c, "zeta", "3.12", "t0").unwrap();
    let alpha = insert_project_at(&mut c, "alpha", "3.11", "t1").unwrap();
    insert_benchmark_at(&mut c, zeta, "b.py", "/z/b.py", "t2").unwrap();
    insert_benchmark_at(&mut c, alpha, "m.py", "/a/m.py", "t3").unwrap();
    insert_benchmark_at(&mut c, zeta, "a.py", "/z/a.py", "t4").unwrap();
    insert_benchmark_at(&mut c, zeta, "B.py", "/z/B.py", "t5").unwrap();
    (c, zeta, alpha)
}

#[test]
fn projects_are_created_and_listed_by_name() {
    let (mut c, zeta, alpha) = filled();
    assert_eq!((zeta, alpha), (1, 2));
    let names: Vec<_> = list_projects(&c).iter().map(|p| p.name.clone()).collect();
    assert_eq!(names, vec!["alpha", "zeta"]);
    assert_eq!(
        insert_project_at(&mut c, "alpha", "3.13", "t"),
        Err(CatalogError::DuplicateName)
    );
    assert_eq!(c.all_projects().len(), 2);
    let p = get_project(&c, alpha).unwrap();
    assert_eq!((p.name.as_str(), p.python_version.as_str()), ("alpha", "3.11"));
    assert_eq!((p.created_at.as_str(), p.updated_at.as_str()), ("t1", "t1"));
    assert!(get_project(&c, 99).is_none());
    update_project_python_version_at(&mut c, alpha, "3.13", "t9");
    update_project_python_version_at(&mut c, 99, "3.13", "t9");
    let p = get_project(&c, alpha).unwrap();
    assert_eq!((p.python_version.as_str(), p.updated_at.as_str()), ("3.13", "t9"));
    assert_eq!(p.created_at, "t1");
    let id = insert_project(&mut c, "beta", "3.12").unwrap();
    assert_eq!(id, 3);
    assert!(!get_project(&c, id).unwrap().created_at.is_empty());
}

#[test]
fn benchmarks_belong_to_projects() {
    let (mut c, zeta, alpha) = filled();
    let names: Vec<_> = get_benchmarks_for_project(&c, zeta)
        .iter()
        .map(|b| b.name.clone())
        .collect();
    assert_eq!(names, vec!["B.py", "a.py", "b.py"]);
    assert!(get_benchmarks_for_project(&c, 99).is_empty());
    assert!(benchmark_exists(&c, zeta, "/z/a.py"));
    assert!(!benchmark_exists(&c, alpha, "/z/a.py"));
    assert_eq!(
        insert_benchmark_at(&mut c, zeta, "again", "/z/a.py", "t"),
        Err(CatalogError::DuplicatePath)
    );
    assert_eq!(insert_benchmark_at(&mut c, alpha, "a.py", "/z/a.py", "t"), Ok(5));
    assert_eq!(
        insert_benchmark(&mut c, 99, "x", "/x"),
        Err(CatalogError::UnknownProject)
    );
    let b = get_benchmark_by_id(&c, 2).unwrap();
    assert_eq!((b.project_id, b.path.as_str()), (alpha, "/a/m.py"));
    assert_eq!(get_benchmark_by_id(&c, 77).err(), Some(CatalogError::UnknownBenchmark));
    delete_benchmark(&mut c, 2);
    delete_benchmark(&mut c, 77);
    assert!(get_benchmark_by_id(&c, 2).is_err());
    assert_eq!(c.all_benchmarks().len(), 4);
    assert_eq!(
        CatalogError::DuplicatePath.message(),
        "Ce benchmark est d\u{e9}j\u{e0} ajout\u{e9} au projet"
    );
    assert_eq!(CatalogError::UnknownProject.message(), "Projet non trouv\u{e9}");
}

#[test]
fn deleting_a_project_deletes_its_benchmarks() {
    let (mut c, zeta, alpha) = filled();
    delete_project(&mut c, zeta);
    delete_project(&mut c, 99);
    assert!(get_project(&c, zeta).is_none());
    let left: Vec<_> = c.all_benchmarks().iter().map(|b| (b.id, b.project_id)).collect();
    assert_eq!(left, vec![(2, alpha)]);
    assert_eq!(insert_project_at(&mut c, "zeta", "3.12", "t"), Ok(3));
    assert_eq!(insert_benchmark_at(&mut c, 3, "b.py", "/z/b.py", "t"), Ok(5));
}

#[test]
fn catalogs_are_taken_over_only_when_valid() {
    let (c, _, _) = filled();
    let projects = c.all_projects().clone();
    let benchmarks = c.all_benchmarks().clone();
    let again = Catalog::from_parts(projects.clone(), benchmarks.clone()).unwrap();
    assert_eq!(again.all_benchmarks().len(), 4);
    let mut same_name = projects.clone();
    same_name[1].name = "zeta".to_string();
    assert!(Catalog::from_parts(same_name, benchmarks.clone()).is_none());
    let mut orphan = benchmarks.clone();
    orphan[0].project_id = 9;
    assert!(Catalog::from_parts(projects.clone(), orphan).is_none());
    let mut twice = benchmarks.clone();
    twice[2].path = "/z/b.py".to_string();
    assert!(Catalog::from_parts(projects.clone(), twice).is_none());
    let mut unordered = benchmarks.clone();
    unordered.swap(0, 1);
    assert!(Catalog::from_parts(projects.clone(), unordered).is_none());
    let mut full = projects.clone();
    full[1].id = i64::MAX;
    assert!(Catalog::from_parts(full, vec![]).is_none());
    assert!(Catalog::from_parts(vec![], vec![]).is_some());
    assert!(Catalog::from_parts(vec![], benchmarks).is_none());
}

#[test]
fn stored_rows_are_read_back() {
    let job = job_from_columns(
        5,
        None,
        "b.py".to_string(),
        "failed",
        "c".to_string(),
        Some("s".to_string()),
        None,
        3,
        -1,
        None,
        Some("e".to_string()),
        None,
        Some(2),
        None,
    );
    assert_eq!(job.id, 5);
    assert_eq!(job.project_id, None);
    assert_eq!(job.status, JobStatus::Failed);
    assert_eq!((job.progress_current, job.progress_total), (3, u32::MAX));
    assert_eq!(job.log_content, "");
    assert_eq!(job.queue_position, Some(2));
    assert_eq!(job.error_message.as_deref(), Some("e"));
    let odd = job_from_columns(
        1,
        Some(1),
        String::new(),
        "???",
        String::new(),
        None,
        None,
        i32::MIN,
        i32::MAX,
        None,
        None,
        Some("log".to_string()),
        None,
        None,
    );
    assert_eq!(odd.status, JobStatus::Pending);
    assert_eq!((odd.progress_current, odd.progress_total), (1 << 31, i32::MAX as u32));
    assert_eq!(odd.log_content, "log");
    assert_eq!(count_to_store(3), 3);
    assert_eq!(count_to_store(u32::MAX), -1);
    assert_eq!(count_to_store(1 << 31), i32::MIN);
}

#[test]
fn names_of_paths() {
    assert_eq!(file_name("/home/user/myproject"), Some("myproject".to_string()));
    assert_eq!(file_name("/home/user/myproject//"), Some("myproject".to_string()));
    assert_eq!(file_name("name"), Some("name".to_string()));
    assert_eq!(file_name("/"), None);
    assert_eq!(file_name(""), None);
    assert_eq!(file_name("/a/.."), None);
    assert_eq!(file_name("/a/..b"), Some("..b".to_string()));
    assert_eq!(project_name_of("/home/user/myproject"), Ok("myproject".to_string()));
    assert_eq!(project_name_of("/"), Err("Invalid project path".to_string()));
    assert!(is_python_file("/code/bench.py"));
    assert!(is_python_file("bench.PY"));
    assert!(!is_python_file("/code/.py"));
    assert!(!is_python_file("/code/bench.pyc"));
    assert!(!is_python_file("/code.py/bench"));
    assert!(!is_python_file(""));
}

#[test]
fn test_pyproject_parsing() {
    let content = "
[project]
name = \"my-project\"
dependencies = [
    \"numpy>=1.20\",
    \"pandas\",
    \"gurobipy>=10.0\",
]
";
    let deps = parse_pyproject_deps(content);
    assert!(deps.contains(&"numpy".to_string()));
    assert!(deps.contains(&"pandas".to_string()));
    assert!(deps.contains(&"gurobipy".to_string()));
}

#[test]
fn declared_packages_by_lookup_name() {
    let content = "
[project]
dependencies = [\"NumPy>=1.20\", \"numpy\", \"scikit-learn[all]\", \">=1\", 3, \"my_pkg.sub\"]

[tool.poetry.dependencies]
Python = \"^3.12\"
numpy = \"*\"
Requests = { version = \"2\" }
";
    assert_eq!(
        parse_pyproject_deps(content),
        vec!["numpy", "scikit-learn", "my_pkg", "python", "requests"]
    );
    assert!(parse_pyproject_deps("not toml [").is_empty());
    assert!(parse_pyproject_deps("").is_empty());
    assert_eq!(declared_name("Pandas==2"), "pandas");
    assert_eq!(declared_name("\u{c9}t\u{e9}-1 x"), "\u{e9}t\u{e9}-1");
    assert_eq!(declared_name(""), "");
    let declared = parse_pyproject_deps(content);
    assert!(is_declared(&declared, "NumPy"));
    assert!(is_declared(&declared, "requests"));
    assert!(!is_declared(&declared, "scipy"));
}

#[test]
fn the_shared_connection_is_opened_and_closed() {
    let c = solver_pilot::config::AppConfig {
        ssh: solver_pilot::config::SshConfig {
            host: "h".to_string(),
            user: "u".to_string(),
            port: 22,
            key_path: String::new(),
        },
        remote: solver_pilot::config::RemoteConfig { remote_base: "/b".to_string() },
        polling: solver_pilot::config::PollingConfig { interval_seconds: 2 },
        gurobi: solver_pilot::config::GurobiConfig::default(),
        tools: solver_pilot::config::ToolsConfig::default(),
        queue_settings: solver_pilot::config::QueueSettings::default(),
    };
    assert_eq!(
        control_master_start_args(&c, Some("/home/u")),
        vec![
            "-o",
            "ControlMaster=yes",
            "-o",
            "ControlPath=/home/u/.ssh/benchmark-runner-h.sock",
            "-o",
            "ControlPersist=yes",
            "-N",
            "-f",
            "u@h",
        ]
    );
    assert_eq!(
        control_master_stop_args(&c, None),
        vec!["-o", "ControlPath=/tmp/.ssh/benchmark-runner-h.sock", "-O", "exit", "u@h"]
    );
    assert_eq!(
        manifest_changes("sending incremental file list\n./\n pyproject.toml \nuv.lock\nother.txt\n.python-version\n"),
        vec!["pyproject.toml", "uv.lock", ".python-version"]
    );
    assert!(manifest_changes("").is_empty());
    assert!(matches!(agent_key_status(false, "/k", true, Some(true)), SshKeyStatus::NoAgent));
    assert!(matches!(
        agent_key_status(true, "/k", false, Some(true)),
        SshKeyStatus::NoKey { expected_path } if expected_path == "/k"
    ));
    assert!(matches!(agent_key_status(true, "/k", true, Some(true)), SshKeyStatus::InAgent));
    assert!(matches!(
        agent_key_status(true, "/k", true, Some(false)),
        SshKeyStatus::NeedsPassphrase { key_path } if key_path == "/k"
    ));
    assert!(matches!(agent_key_status(true, "/k", true, None), SshKeyStatus::NoAgent));
}
