use solver_pilot::paths::{config_path, db_path, get, join_path, projects_dir, AppPaths};
use solver_pilot::project::{
    declared_dependencies, get_member, parse_python_versions, project_path, pyproject_path,
    read_manifest, read_project_dependencies, requirement_name, set_required_python, uv_program,
    TomlNode, UvTask,
};

fn paths() -> Option<AppPaths> {
    Some(AppPaths {
        config_dir: "/home/u/.config/app".to_string(),
        data_dir: "/home/u/.local/share/app/".to_string(),
    })
}

#[test]
fn application_paths() {
    assert_eq!(config_path(&paths()), Ok("/home/u/.config/app/config.toml".to_string()));
    assert_eq!(db_path(&paths()), Ok("/home/u/.local/share/app/solver-pilot.db".to_string()));
    assert_eq!(projects_dir(&paths()), Ok("/home/u/.local/share/app/projects".to_string()));
    assert_eq!(
        project_path(&paths(), "demo"),
        Ok("/home/u/.local/share/app/projects/demo".to_string())
    );
    assert_eq!(
        pyproject_path(&paths(), "demo"),
        Ok("/home/u/.local/share/app/projects/demo/pyproject.toml".to_string())
    );
    assert_eq!(get(&paths()).map(|p| p.config_dir.clone()), Ok("/home/u/.config/app".to_string()));
    assert_eq!(
        config_path(&None),
        Err("paths::init() must be called before config_path()".to_string())
    );
    assert_eq!(
        db_path(&None),
        Err("paths::init() must be called before db_path()".to_string())
    );
    assert_eq!(
        projects_dir(&None),
        Err("paths::init() must be called before projects_dir()".to_string())
    );
    assert_eq!(
        get(&None).map(|p| p.data_dir.clone()),
        Err("paths::init() must be called before get()".to_string())
    );
    assert!(project_path(&None, "x").is_err());
    assert_eq!(join_path("", "x"), "x");
    assert_eq!(join_path("/", "x"), "/x");
    assert_eq!(join_path("a", ""), "a/");
}

#[test]
fn uv_calls() {
    let add = UvTask::Add { package: "numpy".to_string() };
    assert_eq!(add.args(), vec!["add", "numpy"]);
    assert_eq!(add.success_message("ok\n"), "\u{2713} numpy ajout\u{e9}\nok\n");
    assert_eq!(add.failure_message("no"), "uv add a \u{e9}chou\u{e9}: no");
    assert_eq!(add.launch_error("not found"), "Erreur ex\u{e9}cution uv add: not found");
    let remove = UvTask::Remove { package: "numpy".to_string() };
    assert_eq!(remove.args(), vec!["remove", "numpy"]);
    assert_eq!(remove.success_message(""), "\u{2713} numpy supprim\u{e9}\n");
    assert_eq!(UvTask::Upgrade.args(), vec!["lock", "--upgrade"]);
    assert_eq!(
        UvTask::Upgrade.success_message("x"),
        "\u{2713} D\u{e9}pendances mises \u{e0} jour\nx"
    );
    assert_eq!(
        UvTask::Upgrade.failure_message("e"),
        "uv lock --upgrade a \u{e9}chou\u{e9}: e"
    );
    assert_eq!(UvTask::Sync.args(), vec!["sync"]);
    assert_eq!(
        UvTask::Sync.success_message("x"),
        "\u{2713} Environnement synchronis\u{e9}\nx"
    );
    assert_eq!(UvTask::Lock.args(), vec!["lock"]);
    assert_eq!(UvTask::Lock.failure_message("e"), "uv lock a \u{e9}chou\u{e9}: e");
    assert_eq!(
        UvTask::Init { python_version: "3.12".to_string() }.args(),
        vec!["init", "--python", "3.12"]
    );
    assert_eq!(
        UvTask::Pin { version: "3.11".to_string() }.args(),
        vec!["python", "pin", "3.11"]
    );
    assert_eq!(
        UvTask::Pin { version: "3.11".to_string() }.failure_message("e"),
        "uv python pin a \u{e9}chou\u{e9}: e"
    );
    assert_eq!(UvTask::ListPythons.args(), vec!["python", "list", "--all-versions"]);
    assert_eq!(uv_program("/usr/bin/uv"), "/usr/bin/uv");
    assert_eq!(uv_program("uv"), "uv");
    assert_eq!(uv_program("~uv/bin"), "~uv/bin");
    let expanded = uv_program("~/.local/bin/uv");
    assert!(expanded.ends_with("/.local/bin/uv"));
    assert!(!uv_program("~").is_empty());
    assert_eq!(uv_program(""), "");
    assert_eq!(uv_program("bin/~/uv"), "bin/~/uv");
}

#[test]
fn python_versions() {
    let out = "cpython-3.13.1-linux-x86_64-gnu    <download available>
cpython-3.12.8-linux-x86_64-gnu    /usr/bin/python3.12
  cpython-3.12.8-linux-x86_64-musl   <download available>
pypy-3.10.14-linux-x86_64-gnu      <download available>
cpython-3.11.11
cpython-
";
    assert_eq!(parse_python_versions(out), vec!["3.13.1", "3.12.8", "3.11.11", ""]);
    assert!(parse_python_versions("").is_empty());
    assert!(parse_python_versions("python-3.9\n").is_empty());
}

const MANIFEST: &str = "[project]
name = \"demo\"
version = \"0.1.0\"
requires-python = \">=3.12\"
dependencies = [
    \"numpy>=1.20\",
    \"pandas\",
    \"gurobipy>=10.0\",
    \"scipy[all]; python_version < '3.13'\",
    \"requests ==2.0\",
    7,
]

[tool.uv]
requires-python   =   \">=3.9.1\"
";

#[test]
fn required_python() {
    let changed = set_required_python(MANIFEST, "3.11").unwrap();
    assert_eq!(
        changed,
        MANIFEST.replacen("requires-python = \">=3.12\"", "requires-python = \">=3.11\"", 1)
    );
    assert!(changed.contains("requires-python   =   \">=3.9.1\""));
    assert_eq!(set_required_python("nothing here", "3.11"), Ok("nothing here".to_string()));
    assert_eq!(
        set_required_python("requires-python=\">=3\"", "3.13"),
        Ok("requires-python = \">=3.13\"".to_string())
    );
    assert_eq!(
        set_required_python("requires-python = \">3.12\"", "3.13"),
        Ok("requires-python = \">3.12\"".to_string())
    );
}

#[test]
fn declared_packages() {
    assert_eq!(
        read_project_dependencies(MANIFEST),
        Ok(vec![
            "numpy".to_string(),
            "pandas".to_string(),
            "gurobipy".to_string(),
            "scipy".to_string(),
            "requests".to_string(),
        ])
    );
    assert_eq!(read_project_dependencies("[project]\nname = \"x\"\n"), Ok(vec![]));
    assert_eq!(read_project_dependencies("[tool]\n"), Ok(vec![]));
    assert_eq!(read_project_dependencies(""), Ok(vec![]));
    assert_eq!(
        read_project_dependencies("[project]\ndependencies = \"numpy\"\n"),
        Ok(vec![])
    );
    let bad = read_project_dependencies("[project\n").unwrap_err();
    assert!(bad.starts_with("Erreur parsing pyproject.toml: "));
    assert!(bad.len() > "Erreur parsing pyproject.toml: ".len());
}

#[test]
fn manifest_values() {
    let doc = read_manifest("a = \"x\"\n[t]\nb = [\"y\", 1, true]\nc = 2\n").unwrap();
    assert!(matches!(get_member(&doc, "a"), Some(TomlNode::Text(s)) if s == "x"));
    assert!(get_member(&doc, "zz").is_none());
    let t = get_member(&doc, "t").unwrap();
    match get_member(t, "b") {
        Some(TomlNode::Array(items)) => {
            assert_eq!(items.len(), 3);
            assert!(matches!(&items[0], TomlNode::Text(s) if s == "y"));
            assert!(matches!(&items[1], TomlNode::Other));
            assert!(matches!(&items[2], TomlNode::Other));
        }
        other => panic!("{other:?}"),
    }
    assert!(matches!(get_member(t, "c"), Some(TomlNode::Other)));
    assert!(get_member(&TomlNode::Other, "a").is_none());
    assert!(declared_dependencies(&doc).is_empty());
    let twice = TomlNode::Table(vec![
        ("k".to_string(), TomlNode::Text("first".to_string())),
        ("k".to_string(), TomlNode::Text("second".to_string())),
    ]);
    assert!(matches!(get_member(&twice, "k"), Some(TomlNode::Text(s)) if s == "first"));
}

#[test]
fn requirement_names() {
    assert_eq!(requirement_name("numpy>=1.0"), "numpy");
    assert_eq!(requirement_name("numpy"), "numpy");
    assert_eq!(requirement_name("a<2"), "a");
    assert_eq!(requirement_name("a!=2"), "a");
    assert_eq!(requirement_name("a[x]"), "a");
    assert_eq!(requirement_name("a;b"), "a");
    assert_eq!(requirement_name("a b"), "a");
    assert_eq!(requirement_name("=a"), "");
    assert_eq!(requirement_name(""), "");
    assert_eq!(requirement_name("my-pkg_2~=1"), "my-pkg_2~");
}
