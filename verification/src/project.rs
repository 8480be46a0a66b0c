//! The projects on the local machine: where they lie, the calls of `uv` that
//! manage their Python environments, and what their manifests declare.

use vstd::prelude::*;
use crate::lines::{lines, lines_of, trim, trim_chars};
use crate::paths::{inside, join_path, AppPaths};
use crate::python_deps::holds;
use crate::text::{
    chars_of, concat2, concat3, find_char, find_from, push_str, slice_of, starts_with, string_of,
    string_views, vec_eq, vec_starts_with, views,
};

verus! {

// ---------------------------------------------------------------------------
// Paths
// ---------------------------------------------------------------------------

/// The directory of a project. Refused while the directories of the
/// application are not known.
pub fn project_path(paths: &Option<AppPaths>, name: &str) -> (r: Result<String, String>)
    ensures
        match (r, *paths) {
            (Ok(path), Some(p)) => path@ == inside(inside(p.data_dir@, "projects"@), name@),
            (Err(e), None) => e@ == "paths::init() must be called before projects_dir()"@,
            _ => false,
        },
{
    match crate::paths::projects_dir(paths) {
        Ok(dir) => Ok(join_path(dir.as_str(), name)),
        Err(e) => Err(e),
    }
}

/// The directory of the projects. Refused while the directories of the
/// application are not known.
pub fn projects_dir(paths: &Option<AppPaths>) -> (r: Result<String, String>)
    ensures
        match (r, *paths) {
            (Ok(path), Some(p)) => path@ == inside(p.data_dir@, "projects"@),
            (Err(e), None) => e@ == "paths::init() must be called before projects_dir()"@,
            _ => false,
        },
{
    crate::paths::projects_dir(paths)
}

/// The manifest of a project. Refused while the directories of the
/// application are not known.
pub fn pyproject_path(paths: &Option<AppPaths>, name: &str) -> (r: Result<String, String>)
    ensures
        match (r, *paths) {
            (Ok(path), Some(p)) => path@ == inside(
                inside(inside(p.data_dir@, "projects"@), name@),
                "pyproject.toml"@,
            ),
            (Err(e), None) => e@ == "paths::init() must be called before projects_dir()"@,
            _ => false,
        },
{
    match project_path(paths, name) {
        Ok(dir) => Ok(join_path(dir.as_str(), "pyproject.toml")),
        Err(e) => Err(e),
    }
}

// ---------------------------------------------------------------------------
// Calls of uv
// ---------------------------------------------------------------------------

/// `shellexpand::tilde`: the path with a leading `~` replaced by the home
/// directory of the user. A path that does not begin with `~`, or in which
/// something other than a slash follows the `~`, comes back as it is; of
/// the other paths only this is claimed, that what follows the `~` is kept
/// at the end.
#[verifier::external_body]
fn tilde(path: &str) -> (out: String)
    ensures
        !(path@.len() > 0 && path@[0] == '~' && (path@.len() == 1 || path@[1] == '/' || path@[1]
            == '\\')) ==> out@ == path@,
        path@.len() > 0 && path@[0] == '~' ==> out@ == path@ || crate::text::ends_with(
            out@,
            path@.skip(1),
        ),
{
    shellexpand::tilde(path).into_owned()
}

/// The program to call for `uv`, given the configured path: the path with
/// a leading `~` replaced by the home directory of the user. A path that
/// does not begin with `~`, or in which something other than a slash follows
/// the `~`, is the program as it stands. Any other path is the program as it
/// stands, or the program ends with what follows the `~`.
pub fn uv_program(uv_path: &str) -> (program: String)
    ensures
        !(uv_path@.len() > 0 && uv_path@[0] == '~' && (uv_path@.len() == 1 || uv_path@[1] == '/'
            || uv_path@[1] == '\\')) ==> program@ == uv_path@,
        uv_path@.len() > 0 && uv_path@[0] == '~' ==> program@ == uv_path@ || crate::text::ends_with(
            program@,
            uv_path@.skip(1),
        ),
{
    tilde(uv_path)
}

/// Something that `uv` is asked to do in the directory of a project.
#[derive(Debug, Clone)]
pub enum UvTask {
    /// Set up a new project for a version of Python.
    Init { python_version: String },
    /// Hold the project to a version of Python.
    Pin { version: String },
    /// Write the lock file anew.
    Lock,
    /// List the versions of Python that can be had.
    ListPythons,
    /// Add a package.
    Add { package: String },
    /// Remove a package.
    Remove { package: String },
    /// Bring all packages to their newest versions.
    Upgrade,
    /// Bring the environment in line with the lock file.
    Sync,
}

impl UvTask {
    /// The arguments of the call.
    pub open spec fn args_text(self) -> Seq<Seq<char>> {
        match self {
            UvTask::Init { python_version } => seq!["init"@, "--python"@, python_version@],
            UvTask::Pin { version } => seq!["python"@, "pin"@, version@],
            UvTask::Lock => seq!["lock"@],
            UvTask::ListPythons => seq!["python"@, "list"@, "--all-versions"@],
            UvTask::Add { package } => seq!["add"@, package@],
            UvTask::Remove { package } => seq!["remove"@, package@],
            UvTask::Upgrade => seq!["lock"@, "--upgrade"@],
            UvTask::Sync => seq!["sync"@],
        }
    }

    /// The call by name, as messages speak of it.
    pub open spec fn name(self) -> Seq<char> {
        match self {
            UvTask::Init { .. } => "uv init"@,
            UvTask::Pin { .. } => "uv python pin"@,
            UvTask::Lock => "uv lock"@,
            UvTask::ListPythons => "uv python list"@,
            UvTask::Add { .. } => "uv add"@,
            UvTask::Remove { .. } => "uv remove"@,
            UvTask::Upgrade => "uv lock --upgrade"@,
            UvTask::Sync => "uv sync"@,
        }
    }

    /// What is said when the call has succeeded, before its output.
    pub open spec fn done_text(self) -> Seq<char> {
        match self {
            UvTask::Add { package } => "\u{2713} "@ + package@ + " ajout\u{e9}"@,
            UvTask::Remove { package } => "\u{2713} "@ + package@ + " supprim\u{e9}"@,
            UvTask::Upgrade => "\u{2713} D\u{e9}pendances mises \u{e0} jour"@,
            UvTask::Sync => "\u{2713} Environnement synchronis\u{e9}"@,
            _ => "\u{2713} "@ + self.name(),
        }
    }

    /// The arguments of the call.
    pub fn args(&self) -> (args: Vec<String>)
        ensures
            string_views(args@) == self.args_text(),
    {
        let mut args: Vec<String> = Vec::new();
        match self {
            UvTask::Init { python_version } => {
                args.push("init".to_owned());
                args.push("--python".to_owned());
                args.push(python_version.clone());
            },
            UvTask::Pin { version } => {
                args.push("python".to_owned());
                args.push("pin".to_owned());
                args.push(version.clone());
            },
            UvTask::Lock => {
                args.push("lock".to_owned());
            },
            UvTask::ListPythons => {
                args.push("python".to_owned());
                args.push("list".to_owned());
                args.push("--all-versions".to_owned());
            },
            UvTask::Add { package } => {
                args.push("add".to_owned());
                args.push(package.clone());
            },
            UvTask::Remove { package } => {
                args.push("remove".to_owned());
                args.push(package.clone());
            },
            UvTask::Upgrade => {
                args.push("lock".to_owned());
                args.push("--upgrade".to_owned());
            },
            UvTask::Sync => {
                args.push("sync".to_owned());
            },
        }
        proof {
            assert(string_views(args@) =~= self.args_text());
        }
        args
    }

    fn label(&self) -> (s: &'static str)
        ensures
            s@ == self.name(),
    {
        match self {
            UvTask::Init { .. } => "uv init",
            UvTask::Pin { .. } => "uv python pin",
            UvTask::Lock => "uv lock",
            UvTask::ListPythons => "uv python list",
            UvTask::Add { .. } => "uv add",
            UvTask::Remove { .. } => "uv remove",
            UvTask::Upgrade => "uv lock --upgrade",
            UvTask::Sync => "uv sync",
        }
    }

    /// What the caller is told when the call has succeeded: that it is done,
    /// and below that the output of the call.
    pub fn success_message(&self, stdout: &str) -> (message: String)
        ensures
            message@ == self.done_text() + "\n"@ + stdout@,
    {
        let mut v: Vec<char> = Vec::new();
        match self {
            UvTask::Add { package } => {
                push_str(&mut v, "\u{2713} ");
                push_str(&mut v, package.as_str());
                push_str(&mut v, " ajout\u{e9}");
            },
            UvTask::Remove { package } => {
                push_str(&mut v, "\u{2713} ");
                push_str(&mut v, package.as_str());
                push_str(&mut v, " supprim\u{e9}");
            },
            UvTask::Upgrade => {
                push_str(&mut v, "\u{2713} D\u{e9}pendances mises \u{e0} jour");
            },
            UvTask::Sync => {
                push_str(&mut v, "\u{2713} Environnement synchronis\u{e9}");
            },
            _ => {
                push_str(&mut v, "\u{2713} ");
                push_str(&mut v, self.label());
            },
        }
        proof {
            assert(v@ =~= self.done_text());
        }
        push_str(&mut v, "\n");
        push_str(&mut v, stdout);
        string_of(&v)
    }

    /// The error of a call that ran and failed: which call, and what it
    /// wrote to its standard error.
    pub fn failure_message(&self, stderr: &str) -> (message: String)
        ensures
            message@ == self.name() + " a \u{e9}chou\u{e9}: "@ + stderr@,
    {
        concat3(self.label(), " a \u{e9}chou\u{e9}: ", stderr)
    }

    /// The error of a call that could not be made.
    pub fn launch_error(&self, cause: &str) -> (message: String)
        ensures
            message@ == "Erreur ex\u{e9}cution "@ + self.name() + ": "@ + cause@,
    {
        let mut v = chars_of("Erreur ex\u{e9}cution ");
        push_str(&mut v, self.label());
        push_str(&mut v, ": ");
        push_str(&mut v, cause);
        string_of(&v)
    }
}

// ---------------------------------------------------------------------------
// Versions of Python
// ---------------------------------------------------------------------------

/// The version that a line of the list of `uv` names: for a line that, white
/// space aside, begins with `cpython-`, what stands between that and the
/// next hyphen or the end of the line.
pub open spec fn version_of_line(line: Seq<char>) -> Option<Seq<char>> {
    let t = trim(line);
    if starts_with(t, "cpython-"@) {
        Some(t.subrange(8, find_from(t, '-', 8)))
    } else {
        None
    }
}

/// The versions that the first `upto` lines name, each once, in the order
/// in which they come first.
pub open spec fn versions_in(all: Seq<Seq<char>>, upto: int) -> Seq<Seq<char>>
    decreases upto,
{
    if upto <= 0 || upto > all.len() {
        Seq::empty()
    } else {
        let before = versions_in(all, upto - 1);
        match version_of_line(all[upto - 1]) {
            Some(v) => if holds(before, v) {
                before
            } else {
                before.push(v)
            },
            None => before,
        }
    }
}

fn holds_text(items: &Vec<Vec<char>>, item: &Vec<char>) -> (b: bool)
    ensures
        b == holds(views(items@), item@),
{
    let ghost all = views(items@);
    let mut i: usize = 0;
    while i < items.len()
        invariant
            i <= items.len(),
            all == views(items@),
            forall|j: int| 0 <= j < i ==> all[j] != item@,
        decreases items.len() - i,
    {
        assert(all[i as int] == items@[i as int]@);
        if vec_eq(&items[i], item) {
            return true;
        }
        i += 1;
    }
    false
}

/// The versions of Python that the list of `uv` names, each once.
pub fn parse_python_versions(stdout: &str) -> (versions: Vec<String>)
    ensures
        string_views(versions@) == versions_in(lines(stdout@), lines(stdout@).len() as int),
{
    let all = lines_of(&chars_of(stdout));
    let ghost ls = views(all@);
    let mark = chars_of("cpython-");
    proof {
        reveal_strlit("cpython-");
    }
    let mut out: Vec<Vec<char>> = Vec::new();
    let mut i: usize = 0;
    proof {
        assert(views(out@) =~= versions_in(ls, 0));
    }
    while i < all.len()
        invariant
            i <= all.len(),
            ls == views(all@),
            mark@ == "cpython-"@,
            mark@.len() == 8,
            views(out@) == versions_in(ls, i as int),
        decreases all.len() - i,
    {
        assert(ls[i as int] == all@[i as int]@);
        let t = trim_chars(&all[i]);
        if vec_starts_with(&t, &mark) {
            let end = find_char(&t, '-', 8);
            let version = slice_of(&t, 8, end);
            if !holds_text(&out, &version) {
                let ghost before = views(out@);
                out.push(version);
                proof {
                    assert(views(out@) =~= before.push(t@.subrange(8, end as int)));
                }
            }
        }
        i += 1;
    }
    crate::text::strings_of(&out)
}

// ---------------------------------------------------------------------------
// The manifest
// ---------------------------------------------------------------------------

/// What replacing the first match of a regular expression in a text gives:
/// `None` for a pattern that is no regular expression.
pub uninterp spec fn regex_replaced(
    pattern: Seq<char>,
    text: Seq<char>,
    replacement: Seq<char>,
) -> Option<Seq<char>>;

/// `regex::Regex::new` and `Regex::replace`: the text with the first match
/// of the pattern replaced. In the replacement `$name` stands for what a
/// group of the pattern has matched.
#[verifier::external_body]
fn replace_first(pattern: &str, text: &str, replacement: &str) -> (out: Option<String>)
    ensures
        match (out, regex_replaced(pattern@, text@, replacement@)) {
            (Some(s), Some(t)) => s@ == t,
            (None, None) => true,
            _ => false,
        },
{
    regex::Regex::new(pattern).ok().map(|re| re.replace(text, replacement).into_owned())
}

/// The line of a manifest that says which versions of Python will do.
pub const REQUIRES_PYTHON: &'static str = "requires-python\\s*=\\s*\">=[\\d.]+\"";

/// The line that asks for at least the version.
pub open spec fn requirement_line(version: Seq<char>) -> Seq<char> {
    "requires-python = \">="@ + version + "\""@
}

/// The manifest with the first line that says which versions of Python will
/// do replaced by one that asks for at least `version`.
pub fn set_required_python(manifest: &str, version: &str) -> (r: Result<String, String>)
    ensures
        match (r, regex_replaced(REQUIRES_PYTHON@, manifest@, requirement_line(version@))) {
            (Ok(s), Some(t)) => s@ == t,
            (Err(e), None) => e@ == "Erreur regex"@,
            _ => false,
        },
{
    let line = concat3("requires-python = \">=", version, "\"");
    match replace_first(REQUIRES_PYTHON, manifest, line.as_str()) {
        Some(s) => Ok(s),
        None => Err("Erreur regex".to_owned()),
    }
}

/// A value of a manifest, as far as it is read here.
#[derive(Debug)]
pub enum TomlNode {
    /// A text.
    Text(String),
    /// A list of values.
    Array(Vec<TomlNode>),
    /// Named values, in the order of their names.
    Table(Vec<(String, TomlNode)>),
    /// Anything else: a number, a truth value, a date.
    Other,
}

/// A value of a TOML document.
#[verifier::external_type_specification]
#[verifier::external_body]
pub struct ExTomlValue(toml::Value);

/// A `toml::Value` as a `TomlNode`: texts, arrays and tables are taken over
/// as they are, the entries of a table in the order in which `toml::Table`
/// hands them out; every other value becomes `Other`. Nothing is claimed of
/// the result.
#[verifier::external_body]
fn node_of(value: &toml::Value) -> (node: TomlNode) {
    match value {
        toml::Value::String(s) => TomlNode::Text(s.clone()),
        toml::Value::Array(a) => TomlNode::Array(a.iter().map(node_of).collect()),
        toml::Value::Table(t) => TomlNode::Table(
            t.iter().map(|(k, v)| (k.clone(), node_of(v))).collect(),
        ),
        _ => TomlNode::Other,
    }
}

/// What a text holds when it is read as a TOML document: the document as a
/// table, or the message of the parser for a text that is none.
pub uninterp spec fn toml_document(content: Seq<char>) -> Result<TomlNode, Seq<char>>;

/// `toml::from_str` at `toml::Value`: reads the text as a TOML document. A
/// document comes back as the `TomlNode` of its table, an error as the
/// message that its `Display` gives. What the parser makes of a text depends
/// on the text alone.
#[verifier::external_body]
fn parse_document(content: &str) -> (r: Result<TomlNode, String>)
    ensures
        match (r, toml_document(content@)) {
            (Ok(node), Ok(doc)) => node == doc,
            (Err(e), Err(text)) => e@ == text,
            _ => false,
        },
{
    match toml::from_str::<toml::Value>(content) {
        Ok(value) => Ok(node_of(&value)),
        Err(e) => Err(e.to_string()),
    }
}

/// What reading a manifest gives: the document, or for a text that is no
/// TOML document the message of the parser behind a few words of our own.
pub open spec fn manifest_of(content: Seq<char>) -> Result<TomlNode, Seq<char>> {
    match toml_document(content) {
        Ok(doc) => Ok(doc),
        Err(text) => Err("Erreur parsing pyproject.toml: "@ + text),
    }
}

/// Reads a manifest. A text that is no TOML document is refused with the
/// message of the parser.
pub fn read_manifest(content: &str) -> (r: Result<TomlNode, String>)
    ensures
        match (r, manifest_of(content@)) {
            (Ok(node), Ok(doc)) => node == doc,
            (Err(e), Err(message)) => e@ == message,
            _ => false,
        },
{
    match parse_document(content) {
        Ok(node) => Ok(node),
        Err(text) => Err(concat2("Erreur parsing pyproject.toml: ", text.as_str())),
    }
}

/// The index of the first entry with the key at or after `from`; the number
/// of entries when there is none.
pub open spec fn entry_from(entries: Seq<(String, TomlNode)>, key: Seq<char>, from: int) -> int
    decreases entries.len() - from,
{
    if from < 0 || from >= entries.len() {
        entries.len() as int
    } else if entries[from].0@ == key {
        from
    } else {
        entry_from(entries, key, from + 1)
    }
}

/// The value that a table holds under the key.
pub open spec fn member(node: TomlNode, key: Seq<char>) -> Option<TomlNode> {
    match node {
        TomlNode::Table(entries) => {
            let at = entry_from(entries@, key, 0);
            if 0 <= at < entries@.len() {
                Some(entries@[at].1)
            } else {
                None
            }
        },
        _ => None,
    }
}

/// The value that a table holds under the key.
pub fn get_member<'a>(node: &'a TomlNode, key: &str) -> (r: Option<&'a TomlNode>)
    ensures
        match (r, member(*node, key@)) {
            (Some(found), Some(m)) => *found == m,
            (None, None) => true,
            _ => false,
        },
{
    match node {
        TomlNode::Table(entries) => {
            let k = chars_of(key);
            let mut i: usize = 0;
            while i < entries.len()
                invariant
                    i <= entries.len(),
                    k@ == key@,
                    *node == TomlNode::Table(*entries),
                    entry_from(entries@, key@, 0) == entry_from(entries@, key@, i as int),
                decreases entries.len() - i,
            {
                if vec_eq(&chars_of(entries[i].0.as_str()), &k) {
                    assert(entries@[i as int].0@ == key@);
                    assert(entry_from(entries@, key@, i as int) == i);
                    return Some(&entries[i].1);
                }
                assert(entries@[i as int].0@ != key@);
                i += 1;
            }
            None
        },
        _ => None,
    }
}

/// Whether a character ends the name of a package in a requirement: it
/// begins a version constraint, an extra or a marker.
pub open spec fn ends_name(c: char) -> bool {
    c == '>' || c == '<' || c == '=' || c == '!' || c == '[' || c == ';' || c == ' '
}

/// The length of the name at the head of a requirement, counted from `i`.
pub open spec fn name_end(req: Seq<char>, i: int) -> int
    decreases req.len() - i,
{
    if i < 0 || i >= req.len() || ends_name(req[i]) {
        i
    } else {
        name_end(req, i + 1)
    }
}

/// The name of the package that a requirement asks for: `numpy` for
/// `numpy>=1.0`.
pub open spec fn package_name(req: Seq<char>) -> Seq<char> {
    req.subrange(0, name_end(req, 0))
}

/// The name of the package that a requirement asks for.
pub fn requirement_name(req: &str) -> (name: String)
    ensures
        name@ == package_name(req@),
{
    let v = chars_of(req);
    let mut i: usize = 0;
    while i < v.len() && !(v[i] == '>' || v[i] == '<' || v[i] == '=' || v[i] == '!' || v[i] == '['
        || v[i] == ';' || v[i] == ' ')
        invariant
            i <= v.len(),
            name_end(v@, 0) == name_end(v@, i as int),
        decreases v.len() - i,
    {
        i += 1;
    }
    string_of(&slice_of(&v, 0, i))
}

/// The names of the packages that the first `upto` items of a list ask for;
/// items that are no text are passed over.
pub open spec fn names_in(items: Seq<TomlNode>, upto: int) -> Seq<Seq<char>>
    decreases upto,
{
    if upto <= 0 || upto > items.len() {
        Seq::empty()
    } else {
        match items[upto - 1] {
            TomlNode::Text(req) => names_in(items, upto - 1).push(package_name(req@)),
            _ => names_in(items, upto - 1),
        }
    }
}

/// The names of the packages that a manifest declares: those of the
/// requirements listed as `dependencies` of the `project`. A manifest
/// without such a list declares none.
pub open spec fn declared(doc: TomlNode) -> Seq<Seq<char>> {
    match member(doc, "project"@) {
        Some(project) => match member(project, "dependencies"@) {
            Some(TomlNode::Array(items)) => names_in(items@, items@.len() as int),
            _ => Seq::empty(),
        },
        None => Seq::empty(),
    }
}

/// The names of the packages that a manifest declares.
pub fn declared_dependencies(doc: &TomlNode) -> (names: Vec<String>)
    ensures
        string_views(names@) == declared(*doc),
{
    let mut names: Vec<String> = Vec::new();
    proof {
        assert(string_views(names@) =~= Seq::<Seq<char>>::empty());
    }
    let project = match get_member(doc, "project") {
        Some(p) => p,
        None => {
            return names;
        },
    };
    let items = match get_member(project, "dependencies") {
        Some(TomlNode::Array(items)) => items,
        _ => {
            return names;
        },
    };
    let mut i: usize = 0;
    while i < items.len()
        invariant
            i <= items.len(),
            string_views(names@) == names_in(items@, i as int),
        decreases items.len() - i,
    {
        match &items[i] {
            TomlNode::Text(req) => {
                let ghost before = string_views(names@);
                names.push(requirement_name(req.as_str()));
                proof {
                    assert(string_views(names@) =~= before.push(package_name(req@)));
                }
            },
            _ => {},
        }
        i += 1;
    }
    names
}

/// The names of the packages that the manifest of a project declares.
/// Refused when the manifest is no TOML document.
pub fn read_project_dependencies(content: &str) -> (r: Result<Vec<String>, String>)
    ensures
        match (r, manifest_of(content@)) {
            (Ok(names), Ok(doc)) => string_views(names@) == declared(doc),
            (Err(e), Err(message)) => e@ == message,
            _ => false,
        },
{
    match read_manifest(content) {
        Ok(doc) => Ok(declared_dependencies(&doc)),
        Err(e) => Err(e),
    }
}

} // verus!
