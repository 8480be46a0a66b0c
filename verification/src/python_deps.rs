//! What a benchmark depends on: local Python files and packages.

use vstd::prelude::*;
use crate::project::{get_member, manifest_of, member, read_manifest, TomlNode};
use crate::lines::{lines, lines_of, trim, trim_chars};
use crate::paths::{inside, last_name, parent_dir, parent_of};
use crate::text::{
    chars_of, contains, find_char, find_from, push_all, push_str, slice_of, str_eq, string_of,
    string_views, strings_of, vec_contains, vec_eq, views,
};

verus! {

/// A local Python file that a benchmark imports, with the files that it
/// imports in turn.
#[derive(Debug)]
pub struct LocalDependency {
    /// The name of the module, such as `solvers.firefighter`.
    pub module_name: String,
    /// The absolute path of the file.
    pub file_path: String,
    /// Whether the file exists.
    pub exists: bool,
    /// The local files that this one imports.
    pub children: Vec<LocalDependency>,
}

/// A package that a benchmark imports from outside the project.
#[derive(Debug, Clone)]
pub struct ExternalPackage {
    /// The name of the package, such as `numpy`.
    pub name: String,
    /// Whether the project declares the package.
    pub in_pyproject: bool,
}

/// What the analysis of a benchmark found.
#[derive(Debug)]
pub struct DependencyAnalysis {
    /// The file that was analysed.
    pub root: String,
    /// The local files it imports.
    pub local_files: Vec<LocalDependency>,
    /// The packages it imports.
    pub external_packages: Vec<ExternalPackage>,
}

/// Whether `paths` holds `path`.
pub open spec fn holds(paths: Seq<Seq<char>>, path: Seq<char>) -> bool {
    exists|i: int| 0 <= i < paths.len() && paths[i] == path
}

/// `paths` with the files of the dependency tree below `dep` added at the
/// end: first the file of `dep` itself, if it exists and is not there yet,
/// then the files of its children.
pub open spec fn with_files(dep: LocalDependency, paths: Seq<Seq<char>>) -> Seq<Seq<char>>
    decreases dep, 1nat, 0nat,
{
    let own = if dep.exists && !holds(paths, dep.file_path@) {
        paths.push(dep.file_path@)
    } else {
        paths
    };
    with_files_of(dep.children, own, dep.children.len() as nat)
}

/// `paths` with the files of the trees below the first `upto` of `deps`
/// added at the end, tree after tree.
pub open spec fn with_files_of(deps: Vec<LocalDependency>, paths: Seq<Seq<char>>, upto: nat) -> Seq<
    Seq<char>,
>
    decreases deps, 0nat, upto,
{
    if upto == 0 || upto > deps.len() {
        paths
    } else {
        with_files(deps[upto - 1], with_files_of(deps, paths, (upto - 1) as nat))
    }
}

fn holds_path(paths: &Vec<String>, path: &str) -> (b: bool)
    ensures
        b == holds(crate::text::string_views(paths@), path@),
{
    let ghost all = crate::text::string_views(paths@);
    let target = chars_of(path);
    let mut i: usize = 0;
    while i < paths.len()
        invariant
            i <= paths.len(),
            all == crate::text::string_views(paths@),
            target@ == path@,
            forall|j: int| 0 <= j < i ==> all[j] != path@,
        decreases paths.len() - i,
    {
        assert(all[i as int] == paths@[i as int]@);
        if vec_eq(&chars_of(paths[i].as_str()), &target) {
            return true;
        }
        i += 1;
    }
    false
}

impl DependencyAnalysis {
    /// Adds the files of the dependency tree below `dep` to `paths`, each
    /// file once.
    pub fn collect_paths_recursive(dep: &LocalDependency, paths: &mut Vec<String>)
        ensures
            crate::text::string_views(final(paths)@) == with_files(
                *dep,
                crate::text::string_views(old(paths)@),
            ),
        decreases *dep,
    {
        broadcast use vstd::std_specs::vec::axiom_vec_index_decreases;

        let ghost before = crate::text::string_views(paths@);
        if dep.exists && !holds_path(paths, dep.file_path.as_str()) {
            paths.push(dep.file_path.clone());
            proof {
                assert(crate::text::string_views(paths@) =~= before.push(dep.file_path@));
            }
        }
        let ghost own = crate::text::string_views(paths@);
        let mut i: usize = 0;
        while i < dep.children.len()
            invariant
                i <= dep.children.len(),
                crate::text::string_views(paths@) == with_files_of(dep.children, own, i as nat),
            decreases dep.children.len() - i,
        {
            Self::collect_paths_recursive(&dep.children[i], paths);
            i += 1;
        }
    }

    /// The files to bring to the remote machine: the analysed file first,
    /// then the local files that exist, in the order in which the analysis
    /// found them, each once.
    pub fn collect_all_file_paths(&self) -> (paths: Vec<String>)
        ensures
            crate::text::string_views(paths@) == with_files_of(
                self.local_files,
                seq![self.root@],
                self.local_files.len() as nat,
            ),
    {
        let mut paths: Vec<String> = Vec::new();
        paths.push(self.root.clone());
        proof {
            assert(crate::text::string_views(paths@) =~= seq![self.root@]);
        }
        let ghost first = crate::text::string_views(paths@);
        let mut i: usize = 0;
        while i < self.local_files.len()
            invariant
                i <= self.local_files.len(),
                first == seq![self.root@],
                crate::text::string_views(paths@) == with_files_of(
                    self.local_files,
                    first,
                    i as nat,
                ),
            decreases self.local_files.len() - i,
        {
            Self::collect_paths_recursive(&self.local_files[i], &mut paths);
            i += 1;
        }
        paths
    }
}

/// Whether the module belongs to the standard library of Python, as far as
/// the common modules go.
pub open spec fn stdlib_module(name: Seq<char>) -> bool {
    ||| name == "abc"@
    ||| name == "argparse"@
    ||| name == "ast"@
    ||| name == "asyncio"@
    ||| name == "base64"@
    ||| name == "collections"@
    ||| name == "contextlib"@
    ||| name == "copy"@
    ||| name == "csv"@
    ||| name == "dataclasses"@
    ||| name == "datetime"@
    ||| name == "decimal"@
    ||| name == "difflib"@
    ||| name == "enum"@
    ||| name == "functools"@
    ||| name == "gc"@
    ||| name == "glob"@
    ||| name == "hashlib"@
    ||| name == "heapq"@
    ||| name == "html"@
    ||| name == "http"@
    ||| name == "importlib"@
    ||| name == "inspect"@
    ||| name == "io"@
    ||| name == "itertools"@
    ||| name == "json"@
    ||| name == "logging"@
    ||| name == "math"@
    ||| name == "multiprocessing"@
    ||| name == "operator"@
    ||| name == "os"@
    ||| name == "pathlib"@
    ||| name == "platform"@
    ||| name == "pprint"@
    ||| name == "queue"@
    ||| name == "random"@
    ||| name == "re"@
    ||| name == "shutil"@
    ||| name == "signal"@
    ||| name == "socket"@
    ||| name == "sqlite3"@
    ||| name == "statistics"@
    ||| name == "string"@
    ||| name == "subprocess"@
    ||| name == "sys"@
    ||| name == "tempfile"@
    ||| name == "textwrap"@
    ||| name == "threading"@
    ||| name == "time"@
    ||| name == "traceback"@
    ||| name == "typing"@
    ||| name == "unittest"@
    ||| name == "urllib"@
    ||| name == "uuid"@
    ||| name == "warnings"@
    ||| name == "weakref"@
    ||| name == "xml"@
    ||| name == "zipfile"@
}

/// Whether the module belongs to the standard library of Python.
pub fn is_stdlib_module(name: &str) -> (b: bool)
    ensures
        b == stdlib_module(name@),
{
    str_eq(name, "abc") || str_eq(name, "argparse") || str_eq(name, "ast") || str_eq(
        name,
        "asyncio",
    ) || str_eq(name, "base64") || str_eq(name, "collections") || str_eq(name, "contextlib")
        || str_eq(name, "copy") || str_eq(name, "csv") || str_eq(name, "dataclasses") || str_eq(
        name,
        "datetime",
    ) || str_eq(name, "decimal") || str_eq(name, "difflib") || str_eq(name, "enum") || str_eq(
        name,
        "functools",
    ) || str_eq(name, "gc") || str_eq(name, "glob") || str_eq(name, "hashlib") || str_eq(
        name,
        "heapq",
    ) || str_eq(name, "html") || str_eq(name, "http") || str_eq(name, "importlib") || str_eq(
        name,
        "inspect",
    ) || str_eq(name, "io") || str_eq(name, "itertools") || str_eq(name, "json") || str_eq(
        name,
        "logging",
    ) || str_eq(name, "math") || str_eq(name, "multiprocessing") || str_eq(name, "operator")
        || str_eq(name, "os") || str_eq(name, "pathlib") || str_eq(name, "platform") || str_eq(
        name,
        "pprint",
    ) || str_eq(name, "queue") || str_eq(name, "random") || str_eq(name, "re") || str_eq(
        name,
        "shutil",
    ) || str_eq(name, "signal") || str_eq(name, "socket") || str_eq(name, "sqlite3") || str_eq(
        name,
        "statistics",
    ) || str_eq(name, "string") || str_eq(name, "subprocess") || str_eq(name, "sys") || str_eq(
        name,
        "tempfile",
    ) || str_eq(name, "textwrap") || str_eq(name, "threading") || str_eq(name, "time") || str_eq(
        name,
        "traceback",
    ) || str_eq(name, "typing") || str_eq(name, "unittest") || str_eq(name, "urllib") || str_eq(
        name,
        "uuid",
    ) || str_eq(name, "warnings") || str_eq(name, "weakref") || str_eq(name, "xml") || str_eq(
        name,
        "zipfile",
    )
}

// ---------------------------------------------------------------------------
// Declared packages
// ---------------------------------------------------------------------------

/// Whether a character is a letter or a number, as Unicode has it.
pub uninterp spec fn alphanumeric(c: char) -> bool;

/// `char::is_alphanumeric`: whether the character is alphabetic or numeric.
pub assume_specification[ char::is_alphanumeric ](c: char) -> (b: bool)
    ensures
        b == alphanumeric(c),
;

/// A text in lower case, as Unicode has it.
pub uninterp spec fn lowercase(s: Seq<char>) -> Seq<char>;

/// `str::to_lowercase`: the text with every character in lower case.
pub assume_specification[ str::to_lowercase ](s: &str) -> (lower: String)
    ensures
        lower@ == lowercase(s@),
;

/// Whether a character can stand in the name of a package.
pub open spec fn in_name(c: char) -> bool {
    alphanumeric(c) || c == '-' || c == '_'
}

/// The index at which the name at the head of a requirement ends, counted
/// from `i`.
pub open spec fn name_length(req: Seq<char>, i: int) -> int
    decreases req.len() - i,
{
    if i < 0 || i >= req.len() || !in_name(req[i]) {
        i
    } else {
        name_length(req, i + 1)
    }
}

/// The name under which a requirement is looked up: what stands at its head
/// of letters, numbers, hyphens and underscores, in lower case.
pub open spec fn lookup_name(req: Seq<char>) -> Seq<char> {
    lowercase(req.subrange(0, name_length(req, 0)))
}

/// The name under which a requirement is looked up.
pub fn declared_name(req: &str) -> (name: String)
    ensures
        name@ == lookup_name(req@),
{
    let v = chars_of(req);
    let mut i: usize = 0;
    while i < v.len() && (v[i].is_alphanumeric() || v[i] == '-' || v[i] == '_')
        invariant
            i <= v.len(),
            name_length(v@, 0) == name_length(v@, i as int),
        decreases v.len() - i,
    {
        i += 1;
    }
    let head = string_of(&slice_of(&v, 0, i));
    head.as_str().to_lowercase()
}

/// `names` with `name` added at the end, unless it is empty or there
/// already.
pub open spec fn with_name(names: Seq<Seq<char>>, name: Seq<char>) -> Seq<Seq<char>> {
    if name.len() == 0 || holds(names, name) {
        names
    } else {
        names.push(name)
    }
}

/// `names` with the lookup names of the first `upto` requirements added;
/// items that are no text are passed over.
pub open spec fn with_requirements(names: Seq<Seq<char>>, items: Seq<TomlNode>, upto: int) -> Seq<
    Seq<char>,
>
    decreases upto,
{
    if upto <= 0 || upto > items.len() {
        names
    } else {
        let before = with_requirements(names, items, upto - 1);
        match items[upto - 1] {
            TomlNode::Text(req) => with_name(before, lookup_name(req@)),
            _ => before,
        }
    }
}

/// `names` with the first `upto` keys added, in lower case.
pub open spec fn with_keys(names: Seq<Seq<char>>, entries: Seq<(String, TomlNode)>, upto: int) -> Seq<
    Seq<char>,
>
    decreases upto,
{
    if upto <= 0 || upto > entries.len() {
        names
    } else {
        let before = with_keys(names, entries, upto - 1);
        if holds(before, lowercase(entries[upto - 1].0@)) {
            before
        } else {
            before.push(lowercase(entries[upto - 1].0@))
        }
    }
}

/// The requirements of a manifest: the `dependencies` of its `project`.
pub open spec fn project_requirements(doc: TomlNode) -> Seq<TomlNode> {
    match member(doc, "project"@) {
        Some(project) => match member(project, "dependencies"@) {
            Some(TomlNode::Array(items)) => items@,
            _ => Seq::empty(),
        },
        None => Seq::empty(),
    }
}

/// The packages that a manifest names for Poetry: the entries of the
/// `dependencies` of `poetry` under `tool`.
pub open spec fn poetry_entries(doc: TomlNode) -> Seq<(String, TomlNode)> {
    match member(doc, "tool"@) {
        Some(tool) => match member(tool, "poetry"@) {
            Some(poetry) => match member(poetry, "dependencies"@) {
                Some(TomlNode::Table(entries)) => entries@,
                _ => Seq::empty(),
            },
            None => Seq::empty(),
        },
        None => Seq::empty(),
    }
}

/// The packages that a manifest declares, by their lookup names, each once:
/// first those of the requirements of the project, then those named for
/// Poetry.
pub open spec fn declared_packages(doc: TomlNode) -> Seq<Seq<char>> {
    let first = with_requirements(
        Seq::empty(),
        project_requirements(doc),
        project_requirements(doc).len() as int,
    );
    with_keys(first, poetry_entries(doc), poetry_entries(doc).len() as int)
}

/// The packages that a manifest declares, by their lookup names.
pub fn declared_in(doc: &TomlNode) -> (names: Vec<String>)
    ensures
        string_views(names@) == declared_packages(*doc),
{
    let mut names: Vec<String> = Vec::new();
    proof {
        assert(string_views(names@) =~= Seq::<Seq<char>>::empty());
    }
    match get_member(doc, "project") {
        Some(project) => match get_member(project, "dependencies") {
            Some(TomlNode::Array(items)) => {
                let mut i: usize = 0;
                while i < items.len()
                    invariant
                        i <= items.len(),
                        string_views(names@) == with_requirements(
                            Seq::empty(),
                            items@,
                            i as int,
                        ),
                    decreases items.len() - i,
                {
                    match &items[i] {
                        TomlNode::Text(req) => {
                            let name = declared_name(req.as_str());
                            if name.as_str().unicode_len() > 0 && !holds_path(
                                &names,
                                name.as_str(),
                            ) {
                                let ghost before = string_views(names@);
                                names.push(name);
                                proof {
                                    assert(string_views(names@) =~= before.push(
                                        lookup_name(req@),
                                    ));
                                }
                            }
                        },
                        _ => {},
                    }
                    i += 1;
                }
            },
            _ => {},
        },
        None => {},
    }
    let ghost first = string_views(names@);
    match get_member(doc, "tool") {
        Some(tool) => match get_member(tool, "poetry") {
            Some(poetry) => match get_member(poetry, "dependencies") {
                Some(TomlNode::Table(entries)) => {
                    let mut i: usize = 0;
                    while i < entries.len()
                        invariant
                            i <= entries.len(),
                            string_views(names@) == with_keys(first, entries@, i as int),
                        decreases entries.len() - i,
                    {
                        let name = entries[i].0.as_str().to_lowercase();
                        if !holds_path(&names, name.as_str()) {
                            let ghost before = string_views(names@);
                            names.push(name);
                            proof {
                                assert(string_views(names@) =~= before.push(
                                    lowercase(entries@[i as int].0@),
                                ));
                            }
                        }
                        i += 1;
                    }
                },
                _ => {},
            },
            None => {},
        },
        None => {},
    }
    names
}

/// The packages that the text of a manifest declares, by their lookup
/// names; none when the text is no TOML document.
pub fn parse_pyproject_deps(content: &str) -> (names: Vec<String>)
    ensures
        string_views(names@) == (match manifest_of(content@) {
            Ok(doc) => declared_packages(doc),
            Err(_) => Seq::empty(),
        }),
{
    match read_manifest(content) {
        Ok(doc) => declared_in(&doc),
        Err(_) => {
            let names: Vec<String> = Vec::new();
            proof {
                assert(string_views(names@) =~= Seq::<Seq<char>>::empty());
            }
            names
        },
    }
}

/// Whether the analysis found that a package is declared.
pub fn is_declared(declared: &Vec<String>, package: &str) -> (b: bool)
    ensures
        b == holds(string_views(declared@), lowercase(package@)),
{
    let lower = package.to_lowercase();
    holds_path(declared, lower.as_str())
}

// ---------------------------------------------------------------------------
// Imports
// ---------------------------------------------------------------------------

/// The number of dots at the head of `s`, counted from `i`.
pub open spec fn dots_end(s: Seq<char>, i: int) -> int
    decreases s.len() - i,
{
    if i < 0 || i >= s.len() || s[i] != '.' {
        i
    } else {
        dots_end(s, i + 1)
    }
}

/// The directory `levels` levels above the directory `dir`.
pub open spec fn ancestor(dir: Seq<char>, levels: nat) -> Option<Seq<char>>
    decreases levels,
{
    if levels == 0 {
        Some(dir)
    } else {
        match parent_dir(dir) {
            Some(up) => ancestor(up, (levels - 1) as nat),
            None => None,
        }
    }
}

/// The module that a relative import in the file names. One dot stands for
/// the directory of the file, each further dot for one directory further up.
/// What follows the dots is the module; with nothing behind the dots the
/// module is the directory itself, by its name.
pub open spec fn relative_module(relative: Seq<char>, file_path: Seq<char>) -> Option<Seq<char>> {
    let dots = dots_end(relative, 0);
    match parent_dir(file_path) {
        None => None,
        Some(dir) => match ancestor(
            dir,
            if dots > 1 {
                (dots - 1) as nat
            } else {
                0nat
            },
        ) {
            None => None,
            Some(at) => if dots >= relative.len() {
                last_name(at)
            } else {
                Some(relative.subrange(dots, relative.len() as int))
            },
        },
    }
}

/// The module that a relative import in the file names.
pub fn resolve_relative_import(relative: &str, file_path: &str) -> (module: Option<String>)
    ensures
        match (module, relative_module(relative@, file_path@)) {
            (Some(m), Some(n)) => m@ == n,
            (None, None) => true,
            _ => false,
        },
{
    let rel = chars_of(relative);
    let mut dots: usize = 0;
    while dots < rel.len() && rel[dots] == '.'
        invariant
            dots <= rel.len(),
            dots_end(rel@, 0) == dots_end(rel@, dots as int),
        decreases rel.len() - dots,
    {
        dots += 1;
    }
    let mut dir = match parent_of(&chars_of(file_path)) {
        Some(dir) => dir,
        None => {
            return None;
        },
    };
    let ghost start = dir@;
    let ghost levels: nat = if dots > 1 {
        (dots - 1) as nat
    } else {
        0nat
    };
    let mut k: usize = 1;
    while k < dots
        invariant
            1 <= k,
            dots <= 1 || k <= dots,
            rel@ == relative@,
            dots == dots_end(rel@, 0),
            parent_dir(file_path@) == Some(start),
            levels == (if dots > 1 {
                (dots - 1) as nat
            } else {
                0nat
            }),
            ancestor(start, levels) == ancestor(dir@, (if dots > k {
                (dots - k) as nat
            } else {
                0nat
            })),
        decreases dots - k,
    {
        match parent_of(&dir) {
            Some(up) => {
                dir = up;
            },
            None => {
                return None;
            },
        }
        k += 1;
    }
    if dots >= rel.len() {
        crate::paths::file_name(string_of(&dir).as_str())
    } else {
        Some(string_of(&slice_of(&rel, dots, rel.len())))
    }
}

/// The first name of a dotted module path: `solvers` for `solvers.fire`.
pub fn top_module(import: &str) -> (name: String)
    ensures
        name@ == import@.subrange(0, find_from(import@, '.', 0)),
{
    let v = chars_of(import);
    let end = find_char(&v, '.', 0);
    string_of(&slice_of(&v, 0, end))
}

/// `s` with a slash in place of each dot.
pub open spec fn dots_to_slashes(s: Seq<char>) -> Seq<char> {
    Seq::new(
        s.len(),
        |i: int|
            if s[i] == '.' {
                '/'
            } else {
                s[i]
            },
    )
}

/// Where the module of an import may lie below a directory of the search
/// path: as a file, as the initial file of a package, or as a directory.
pub fn import_candidates(import: &str, search_path: &str) -> (found: (String, String, String))
    ensures
        found.0@ == inside(search_path@, dots_to_slashes(import@) + ".py"@),
        found.1@ == inside(inside(search_path@, dots_to_slashes(import@)), "__init__.py"@),
        found.2@ == inside(search_path@, dots_to_slashes(import@)),
{
    let v = chars_of(import);
    let mut rel: Vec<char> = Vec::new();
    let mut i: usize = 0;
    while i < v.len()
        invariant
            i <= v.len(),
            rel@ == dots_to_slashes(v@).take(i as int),
        decreases v.len() - i,
    {
        rel.push(
            if v[i] == '.' {
                '/'
            } else {
                v[i]
            },
        );
        proof {
            assert(rel@ =~= dots_to_slashes(v@).take(i + 1));
        }
        i += 1;
    }
    proof {
        assert(dots_to_slashes(v@).take(i as int) =~= dots_to_slashes(v@));
    }
    let rel = string_of(&rel);
    let file = crate::text::concat2(rel.as_str(), ".py");
    let dir = crate::paths::join_path(search_path, rel.as_str());
    (
        crate::paths::join_path(search_path, file.as_str()),
        crate::paths::join_path(dir.as_str(), "__init__.py"),
        dir,
    )
}

/// The directory that an addition to the search path names: the addition
/// itself where it begins at the root, and the addition below the root of
/// the local code where it does not.
pub fn search_directory(addition: &str, local_code_root: &str) -> (dir: String)
    ensures
        dir@ == (if addition@.len() > 0 && addition@[0] == '/' {
            addition@
        } else {
            inside(local_code_root@, addition@)
        }),
{
    let v = chars_of(addition);
    if v.len() > 0 && v[0] == '/' {
        string_of(&v)
    } else {
        crate::paths::join_path(local_code_root, addition)
    }
}

// ---------------------------------------------------------------------------
// Additions to the search path
// ---------------------------------------------------------------------------

/// What a scan for quoted texts holds: the texts found, the text being
/// read, and the quote that opened it, if one is open.
pub struct QuoteScan {
    pub parts: Seq<Seq<char>>,
    pub current: Seq<char>,
    pub open: Option<char>,
}

/// The scan after one more character. Outside a quoted text a quote opens
/// one. Inside, the quote that opened the text closes it, and the text counts
/// unless it is empty; every other character belongs to the text.
pub open spec fn scan_step(scan: QuoteScan, c: char) -> QuoteScan {
    match scan.open {
        None => if c == '"' || c == '\'' {
            QuoteScan { parts: scan.parts, current: scan.current, open: Some(c) }
        } else {
            scan
        },
        Some(q) => if c == q {
            QuoteScan {
                parts: if scan.current.len() > 0 {
                    scan.parts.push(scan.current)
                } else {
                    scan.parts
                },
                current: Seq::empty(),
                open: None,
            }
        } else {
            QuoteScan { parts: scan.parts, current: scan.current.push(c), open: scan.open }
        },
    }
}

/// The scan after the first `upto` characters of the line.
pub open spec fn scan_of(line: Seq<char>, upto: int) -> QuoteScan
    decreases upto,
{
    if upto <= 0 || upto > line.len() {
        QuoteScan { parts: Seq::empty(), current: Seq::empty(), open: None }
    } else {
        scan_step(scan_of(line, upto - 1), line[upto - 1])
    }
}

/// The texts that stand between quotes in the line, single or double, empty
/// ones left out.
pub open spec fn quoted(line: Seq<char>) -> Seq<Seq<char>> {
    scan_of(line, line.len() as int).parts
}

/// The texts that stand between quotes in the line.
pub fn quoted_parts(line: &Vec<char>) -> (parts: Vec<Vec<char>>)
    ensures
        views(parts@) == quoted(line@),
{
    let mut parts: Vec<Vec<char>> = Vec::new();
    let mut current: Vec<char> = Vec::new();
    let mut open: Option<char> = None;
    let mut i: usize = 0;
    proof {
        assert(views(parts@) =~= Seq::<Seq<char>>::empty());
    }
    while i < line.len()
        invariant
            i <= line.len(),
            scan_of(line@, i as int) == (QuoteScan {
                parts: views(parts@),
                current: current@,
                open,
            }),
        decreases line.len() - i,
    {
        let c = line[i];
        match open {
            None => {
                if c == '"' || c == '\'' {
                    open = Some(c);
                }
            },
            Some(q) => {
                if c == q {
                    if current.len() > 0 {
                        let ghost before = views(parts@);
                        let ghost text = current@;
                        parts.push(current);
                        proof {
                            assert(views(parts@) =~= before.push(text));
                        }
                    }
                    current = Vec::new();
                    open = None;
                } else {
                    current.push(c);
                }
            },
        }
        i += 1;
    }
    parts
}

/// A name for a directory, as a script sets it.
pub struct PathVar {
    pub name: Seq<char>,
    pub path: Seq<char>,
}

/// The index of the first of the first `upto` names that stands in the
/// text; -1 when none does.
pub open spec fn named_in(vars: Seq<PathVar>, text: Seq<char>, upto: int) -> int
    decreases upto,
{
    if upto <= 0 || upto > vars.len() {
        -1
    } else {
        let before = named_in(vars, text, upto - 1);
        if before >= 0 {
            before
        } else if contains(text, vars[upto - 1].name) {
            upto - 1
        } else {
            -1
        }
    }
}

/// The index of the first of the first `upto` names that stands in the text
/// and whose directory lies in another one; -1 when there is none.
pub open spec fn nested_in(vars: Seq<PathVar>, text: Seq<char>, upto: int) -> int
    decreases upto,
{
    if upto <= 0 || upto > vars.len() {
        -1
    } else {
        let before = nested_in(vars, text, upto - 1);
        if before >= 0 {
            before
        } else if contains(text, vars[upto - 1].name) && parent_dir(vars[upto - 1].path) is Some {
            upto - 1
        } else {
            -1
        }
    }
}

/// The index of the name among the first `upto` names; -1 when it is not
/// among them.
pub open spec fn var_index(vars: Seq<PathVar>, name: Seq<char>, upto: int) -> int
    decreases upto,
{
    if upto <= 0 || upto > vars.len() {
        -1
    } else {
        let before = var_index(vars, name, upto - 1);
        if before >= 0 {
            before
        } else if vars[upto - 1].name == name {
            upto - 1
        } else {
            -1
        }
    }
}

/// The names with `name` set to `path`: in its old place if it was set
/// before, at the end if not.
pub open spec fn with_var(vars: Seq<PathVar>, name: Seq<char>, path: Seq<char>) -> Seq<PathVar> {
    let at = var_index(vars, name, vars.len() as int);
    if 0 <= at < vars.len() {
        vars.update(at, PathVar { name, path })
    } else {
        vars.push(PathVar { name, path })
    }
}

/// The names after a line of a script, white space around it taken off. A
/// line that takes the directory of the file itself names the directory of
/// the file. A line that takes the directory of a name that is known names
/// the directory in which that one lies. The name is what stands before the
/// first `=` of the line.
pub open spec fn vars_after(vars: Seq<PathVar>, line: Seq<char>, file_dir: Seq<char>) -> Seq<
    PathVar,
> {
    let eq = find_from(line, '=', 0);
    if !contains(line, "os.path.dirname"@) || !(0 <= eq < line.len()) {
        vars
    } else if contains(line, "__file__"@) {
        with_var(vars, trim(line.subrange(0, eq)), file_dir)
    } else {
        let at = nested_in(vars, line.subrange(eq + 1, line.len() as int), vars.len() as int);
        if 0 <= at < vars.len() {
            with_var(vars, trim(line.subrange(0, eq)), parent_dir(vars[at].path)->0)
        } else {
            vars
        }
    }
}

/// Each of the texts below the directory.
pub open spec fn each_inside(dir: Seq<char>, parts: Seq<Seq<char>>) -> Seq<Seq<char>> {
    parts.map_values(|part: Seq<char>| inside(dir, part))
}

/// The directories that a line of a script, white space around it taken off,
/// adds to the search path. A line that joins a known name with a folder
/// adds the last quoted text of the line below the directory of the name. Any
/// other line that speaks of the search path adds each of its quoted texts
/// below the directory of the file.
pub open spec fn additions_of(vars: Seq<PathVar>, line: Seq<char>, file_dir: Seq<char>) -> Seq<
    Seq<char>,
> {
    if !contains(line, "sys.path"@) {
        Seq::empty()
    } else if contains(line, "os.path.join"@) {
        let at = named_in(vars, line, vars.len() as int);
        if 0 <= at < vars.len() && quoted(line).len() > 0 {
            seq![inside(vars[at].path, quoted(line).last())]
        } else {
            Seq::empty()
        }
    } else {
        each_inside(file_dir, quoted(line))
    }
}

/// The names after the first `upto` lines.
pub open spec fn vars_upto(all: Seq<Seq<char>>, file_dir: Seq<char>, upto: int) -> Seq<PathVar>
    decreases upto,
{
    if upto <= 0 || upto > all.len() {
        Seq::empty()
    } else {
        vars_after(vars_upto(all, file_dir, upto - 1), trim(all[upto - 1]), file_dir)
    }
}

/// The directories that the first `upto` lines add to the search path, in
/// the order of the lines.
pub open spec fn additions_upto(all: Seq<Seq<char>>, file_dir: Seq<char>, upto: int) -> Seq<
    Seq<char>,
>
    decreases upto,
{
    if upto <= 0 || upto > all.len() {
        Seq::empty()
    } else {
        additions_upto(all, file_dir, upto - 1) + additions_of(
            vars_upto(all, file_dir, upto),
            trim(all[upto - 1]),
            file_dir,
        )
    }
}

/// The views of names as they are held while a script is read.
pub open spec fn var_views(vars: Seq<(Vec<char>, Vec<char>)>) -> Seq<PathVar> {
    vars.map_values(|v: (Vec<char>, Vec<char>)| PathVar { name: v.0@, path: v.1@ })
}

fn find_named(vars: &Vec<(Vec<char>, Vec<char>)>, text: &Vec<char>, nested: bool) -> (at: Option<
    usize,
>)
    ensures
        match at {
            Some(i) => i < vars.len() && i == (if nested {
                nested_in(var_views(vars@), text@, vars.len() as int)
            } else {
                named_in(var_views(vars@), text@, vars.len() as int)
            }) && (nested ==> parent_dir(vars@[i as int].1@) is Some),
            None => (if nested {
                nested_in(var_views(vars@), text@, vars.len() as int)
            } else {
                named_in(var_views(vars@), text@, vars.len() as int)
            }) == -1,
        },
{
    let ghost all = var_views(vars@);
    let mut i: usize = 0;
    while i < vars.len()
        invariant
            i <= vars.len(),
            all == var_views(vars@),
            nested_in(all, text@, i as int) == -1 || !nested,
            named_in(all, text@, i as int) == -1 || nested,
        decreases vars.len() - i,
    {
        assert(all[i as int] == (PathVar { name: vars@[i as int].0@, path: vars@[i as int].1@ }));
        if vec_contains(text, &vars[i].0) && (!nested || parent_of(&vars[i].1).is_some()) {
            proof {
                lemma_found_stays(all, text@, nested, i as int, vars.len() as int);
            }
            return Some(i);
        }
        i += 1;
    }
    None
}

proof fn lemma_found_stays(vars: Seq<PathVar>, text: Seq<char>, nested: bool, at: int, upto: int)
    requires
        0 <= at < upto <= vars.len(),
        nested ==> nested_in(vars, text, at + 1) == at,
        !nested ==> named_in(vars, text, at + 1) == at,
    ensures
        nested ==> nested_in(vars, text, upto) == at,
        !nested ==> named_in(vars, text, upto) == at,
    decreases upto - at,
{
    if upto > at + 1 {
        lemma_found_stays(vars, text, nested, at, upto - 1);
    }
}

fn set_var(vars: &mut Vec<(Vec<char>, Vec<char>)>, name: Vec<char>, path: Vec<char>)
    ensures
        var_views(final(vars)@) == with_var(var_views(old(vars)@), name@, path@),
{
    let ghost all = var_views(vars@);
    let mut i: usize = 0;
    while i < vars.len()
        invariant
            i <= vars.len(),
            all == var_views(vars@),
            vars@ == old(vars)@,
            var_index(all, name@, i as int) == -1,
        decreases vars.len() - i,
    {
        assert(all[i as int] == (PathVar { name: vars@[i as int].0@, path: vars@[i as int].1@ }));
        if vec_eq(&vars[i].0, &name) {
            proof {
                lemma_index_stays(all, name@, i as int, vars.len() as int);
            }
            let ghost n = name@;
            let ghost p = path@;
            vars.set(i, (name, path));
            proof {
                assert(var_views(vars@) =~= all.update(i as int, PathVar { name: n, path: p }));
            }
            return ;
        }
        i += 1;
    }
    let ghost n = name@;
    let ghost p = path@;
    vars.push((name, path));
    proof {
        assert(var_views(vars@) =~= all.push(PathVar { name: n, path: p }));
    }
}

proof fn lemma_index_stays(vars: Seq<PathVar>, name: Seq<char>, at: int, upto: int)
    requires
        0 <= at < upto <= vars.len(),
        var_index(vars, name, at + 1) == at,
    ensures
        var_index(vars, name, upto) == at,
    decreases upto - at,
{
    if upto > at + 1 {
        lemma_index_stays(vars, name, at, upto - 1);
    }
}

/// The directories that a script adds to the search path, as far as they can
/// be read off its lines: which of them exist is for the caller to find out.
pub fn extract_sys_path_additions(source: &str, file_dir: &str) -> (additions: Vec<String>)
    ensures
        string_views(additions@) == additions_upto(
            lines(source@),
            file_dir@,
            lines(source@).len() as int,
        ),
{
    let all = lines_of(&chars_of(source));
    let ghost ls = views(all@);
    let dir = chars_of(file_dir);
    let dirname = chars_of("os.path.dirname");
    let this_file = chars_of("__file__");
    let sys_path = chars_of("sys.path");
    let join = chars_of("os.path.join");
    let mut vars: Vec<(Vec<char>, Vec<char>)> = Vec::new();
    let mut out: Vec<Vec<char>> = Vec::new();
    let mut i: usize = 0;
    proof {
        assert(var_views(vars@) =~= vars_upto(ls, file_dir@, 0));
        assert(views(out@) =~= additions_upto(ls, file_dir@, 0));
    }
    while i < all.len()
        invariant
            i <= all.len(),
            ls == views(all@),
            dir@ == file_dir@,
            dirname@ == "os.path.dirname"@,
            this_file@ == "__file__"@,
            sys_path@ == "sys.path"@,
            join@ == "os.path.join"@,
            var_views(vars@) == vars_upto(ls, file_dir@, i as int),
            views(out@) == additions_upto(ls, file_dir@, i as int),
        decreases all.len() - i,
    {
        assert(ls[i as int] == all@[i as int]@);
        let line = trim_chars(&all[i]);
        let ghost before_vars = var_views(vars@);
        let eq = find_char(&line, '=', 0);
        if vec_contains(&line, &dirname) && eq < line.len() {
            let name = trim_chars(&slice_of(&line, 0, eq));
            if vec_contains(&line, &this_file) {
                let here = slice_of(&dir, 0, dir.len());
                assert(here@ =~= file_dir@);
                set_var(&mut vars, name, here);
                assert(var_views(vars@) == vars_after(before_vars, line@, file_dir@));
            } else {
                let rhs = slice_of(&line, eq + 1, line.len());
                match find_named(&vars, &rhs, true) {
                    Some(at) => {
                        assert(before_vars[at as int] == (PathVar {
                            name: vars@[at as int].0@,
                            path: vars@[at as int].1@,
                        }));
                        match parent_of(&vars[at].1) {
                            Some(up) => {
                                assert(up@ == parent_dir(before_vars[at as int].path)->0);
                                set_var(&mut vars, name, up);
                                assert(var_views(vars@) == vars_after(
                                    before_vars,
                                    line@,
                                    file_dir@,
                                ));
                            },
                            None => {},
                        }
                    },
                    None => {
                        assert(var_views(vars@) == vars_after(before_vars, line@, file_dir@));
                    },
                }
            }
        } else {
            assert(var_views(vars@) == vars_after(before_vars, line@, file_dir@));
        }
        assert(var_views(vars@) == vars_after(before_vars, line@, file_dir@));
        let ghost now_vars = var_views(vars@);
        let ghost before_out = views(out@);
        if vec_contains(&line, &sys_path) {
            let parts = quoted_parts(&line);
            if vec_contains(&line, &join) {
                match find_named(&vars, &line, false) {
                    Some(at) => {
                        assert(now_vars[at as int] == (PathVar {
                            name: vars@[at as int].0@,
                            path: vars@[at as int].1@,
                        }));
                        if parts.len() > 0 {
                            assert(views(parts@).last() == parts@[parts.len() - 1]@);
                            let mut full = slice_of(&vars[at].1, 0, vars[at].1.len());
                            assert(full@ =~= vars@[at as int].1@);
                            if full.len() > 0 && full[full.len() - 1] != '/' {
                                push_str(&mut full, "/");
                            }
                            push_all(&mut full, &parts[parts.len() - 1]);
                            proof {
                                reveal_strlit("/");
                                assert(full@ =~= inside(
                                    vars@[at as int].1@,
                                    parts@[parts.len() - 1]@,
                                ));
                            }
                            out.push(full);
                            proof {
                                assert(views(out@) =~= before_out + additions_of(
                                    now_vars,
                                    line@,
                                    file_dir@,
                                ));
                            }
                        }
                    },
                    None => {},
                }
            } else {
                let mut k: usize = 0;
                while k < parts.len()
                    invariant
                        k <= parts.len(),
                        dir@ == file_dir@,
                        views(out@) == before_out + each_inside(file_dir@, views(parts@)).take(
                            k as int,
                        ),
                    decreases parts.len() - k,
                {
                    assert(views(parts@)[k as int] == parts@[k as int]@);
                    let mut full = slice_of(&dir, 0, dir.len());
                    assert(full@ =~= dir@);
                    if full.len() > 0 && full[full.len() - 1] != '/' {
                        push_str(&mut full, "/");
                    }
                    push_all(&mut full, &parts[k]);
                    proof {
                        reveal_strlit("/");
                        assert(full@ =~= inside(file_dir@, parts@[k as int]@));
                    }
                    let ghost o = views(out@);
                    out.push(full);
                    proof {
                        assert(each_inside(file_dir@, views(parts@))[k as int] == inside(
                            file_dir@,
                            parts@[k as int]@,
                        ));
                        assert(views(out@) =~= o.push(inside(file_dir@, parts@[k as int]@)));
                        assert(views(out@) =~= before_out + each_inside(
                            file_dir@,
                            views(parts@),
                        ).take(k + 1));
                    }
                    k += 1;
                }
                proof {
                    assert(each_inside(file_dir@, views(parts@)).take(k as int) =~= each_inside(
                        file_dir@,
                        views(parts@),
                    ));
                }
            }
        }
        proof {
            assert(views(out@) =~= before_out + additions_of(now_vars, line@, file_dir@));
        }
        i += 1;
    }
    strings_of(&out)
}

} // verus!
