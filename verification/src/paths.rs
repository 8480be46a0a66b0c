//! The directories of the application on the local machine.

use vstd::prelude::*;
use crate::text::{chars_of, push_str, slice_of, string_of};

verus! {

/// The directories of the application, once they are known.
#[derive(Debug, Clone)]
pub struct AppPaths {
    /// The directory of the configuration file.
    pub config_dir: String,
    /// The directory of the database and of the projects.
    pub data_dir: String,
}

/// The path of `name` inside the directory `dir`: the two with a slash
/// between them, unless `dir` is empty or ends with one.
pub open spec fn inside(dir: Seq<char>, name: Seq<char>) -> Seq<char> {
    if dir.len() == 0 || dir.last() == '/' {
        dir + name
    } else {
        dir + "/"@ + name
    }
}

/// The path of `name` inside the directory `dir`.
pub fn join_path(dir: &str, name: &str) -> (path: String)
    ensures
        path@ == inside(dir@, name@),
{
    let mut v = chars_of(dir);
    if v.len() > 0 && v[v.len() - 1] != '/' {
        push_str(&mut v, "/");
    }
    push_str(&mut v, name);
    proof {
        assert(v@ =~= inside(dir@, name@));
    }
    string_of(&v)
}

/// The path of the configuration file. Refused while the directories are not
/// known.
pub fn config_path(paths: &Option<AppPaths>) -> (r: Result<String, String>)
    ensures
        match (r, *paths) {
            (Ok(path), Some(p)) => path@ == inside(p.config_dir@, "config.toml"@),
            (Err(e), None) => e@ == "paths::init() must be called before config_path()"@,
            _ => false,
        },
{
    match paths {
        Some(p) => Ok(join_path(p.config_dir.as_str(), "config.toml")),
        None => Err("paths::init() must be called before config_path()".to_owned()),
    }
}

/// The path of the database file. Refused while the directories are not
/// known.
pub fn db_path(paths: &Option<AppPaths>) -> (r: Result<String, String>)
    ensures
        match (r, *paths) {
            (Ok(path), Some(p)) => path@ == inside(p.data_dir@, "solver-pilot.db"@),
            (Err(e), None) => e@ == "paths::init() must be called before db_path()"@,
            _ => false,
        },
{
    match paths {
        Some(p) => Ok(join_path(p.data_dir.as_str(), "solver-pilot.db")),
        None => Err("paths::init() must be called before db_path()".to_owned()),
    }
}

/// The directory of the projects. Refused while the directories are not
/// known.
pub fn projects_dir(paths: &Option<AppPaths>) -> (r: Result<String, String>)
    ensures
        match (r, *paths) {
            (Ok(path), Some(p)) => path@ == inside(p.data_dir@, "projects"@),
            (Err(e), None) => e@ == "paths::init() must be called before projects_dir()"@,
            _ => false,
        },
{
    match paths {
        Some(p) => Ok(join_path(p.data_dir.as_str(), "projects")),
        None => Err("paths::init() must be called before projects_dir()".to_owned()),
    }
}

/// The directories of the application. Refused while they are not known.
pub fn get(paths: &Option<AppPaths>) -> (r: Result<&AppPaths, String>)
    ensures
        match (r, *paths) {
            (Ok(found), Some(p)) => *found == p,
            (Err(e), None) => e@ == "paths::init() must be called before get()"@,
            _ => false,
        },
{
    match paths {
        Some(p) => Ok(p),
        None => Err("paths::init() must be called before get()".to_owned()),
    }
}

// ---------------------------------------------------------------------------
// Names and extensions
// ---------------------------------------------------------------------------

/// The index behind the last `c` before index `upto` of `s`; 0 when there is
/// none.
pub open spec fn after_last(s: Seq<char>, c: char, upto: int) -> int
    decreases upto,
{
    if upto <= 0 || upto > s.len() {
        0
    } else if s[upto - 1] == c {
        upto
    } else {
        after_last(s, c, upto - 1)
    }
}

/// The length of `s` without its trailing slashes.
pub open spec fn bare_len(s: Seq<char>, upto: int) -> int
    decreases upto,
{
    if upto <= 0 || upto > s.len() {
        0
    } else if s[upto - 1] == '/' {
        bare_len(s, upto - 1)
    } else {
        upto
    }
}

/// The directory that holds `path`: what stands before the last name of the
/// path, without the slash between them, but `/` for a name right under the
/// root. A path without a name, empty or made of slashes, is in no directory.
pub open spec fn parent_dir(path: Seq<char>) -> Option<Seq<char>> {
    let n = bare_len(path, path.len() as int);
    let k = after_last(path, '/', n);
    if n == 0 {
        None
    } else if k <= 1 {
        Some(path.take(k))
    } else {
        Some(path.take(k - 1))
    }
}

/// The last name of a path: what stands behind its last slash, trailing
/// slashes aside. A path without a name, empty or made of slashes, has none,
/// and neither has a path that ends in `..`.
pub open spec fn last_name(path: Seq<char>) -> Option<Seq<char>> {
    let n = bare_len(path, path.len() as int);
    let k = after_last(path, '/', n);
    if n == 0 || path.subrange(k, n) == ".."@ {
        None
    } else {
        Some(path.subrange(k, n))
    }
}

fn bare_length(path: &Vec<char>) -> (n: usize)
    ensures
        n == bare_len(path@, path@.len() as int),
        n <= path.len(),
{
    let mut n: usize = path.len();
    while n > 0 && path[n - 1] == '/'
        invariant
            n <= path.len(),
            bare_len(path@, path@.len() as int) == bare_len(path@, n as int),
        decreases n,
    {
        n -= 1;
    }
    n
}

fn name_start(path: &Vec<char>, n: usize) -> (k: usize)
    requires
        n <= path.len(),
    ensures
        k == after_last(path@, '/', n as int),
        k <= n,
{
    let mut k: usize = n;
    while k > 0 && path[k - 1] != '/'
        invariant
            k <= n <= path.len(),
            after_last(path@, '/', n as int) == after_last(path@, '/', k as int),
        decreases k,
    {
        k -= 1;
    }
    k
}

/// The directory that holds `path`.
pub fn parent_of(path: &Vec<char>) -> (r: Option<Vec<char>>)
    ensures
        match (r, parent_dir(path@)) {
            (Some(dir), Some(d)) => dir@ == d,
            (None, None) => true,
            _ => false,
        },
{
    let n = bare_length(path);
    if n == 0 {
        return None;
    }
    let k = name_start(path, n);
    if k <= 1 {
        Some(slice_of(path, 0, k))
    } else {
        Some(slice_of(path, 0, k - 1))
    }
}

/// The last name of a path.
pub fn file_name(path: &str) -> (r: Option<String>)
    ensures
        match (r, last_name(path@)) {
            (Some(name), Some(n)) => name@ == n,
            (None, None) => true,
            _ => false,
        },
{
    let v = chars_of(path);
    let n = bare_length(&v);
    if n == 0 {
        return None;
    }
    let k = name_start(&v, n);
    let name = slice_of(&v, k, n);
    if crate::text::vec_eq(&name, &chars_of("..")) {
        return None;
    }
    Some(string_of(&name))
}

/// Whether a path names a Python file: its last name ends with `.py`, in
/// upper or lower case, and has something before that.
pub open spec fn python_name(path: Seq<char>) -> bool {
    match last_name(path) {
        Some(name) => {
            let n = name.len() as int;
            &&& n > 3
            &&& name[n - 3] == '.'
            &&& (name[n - 2] == 'p' || name[n - 2] == 'P')
            &&& (name[n - 1] == 'y' || name[n - 1] == 'Y')
        },
        None => false,
    }
}

/// Whether a path names a Python file.
pub fn is_python_file(path: &str) -> (b: bool)
    ensures
        b == python_name(path@),
{
    match file_name(path) {
        Some(name) => {
            let v = chars_of(name.as_str());
            let n = v.len();
            n > 3 && v[n - 3] == '.' && (v[n - 2] == 'p' || v[n - 2] == 'P') && (v[n - 1] == 'y'
                || v[n - 1] == 'Y')
        },
        None => false,
    }
}

} // verus!
