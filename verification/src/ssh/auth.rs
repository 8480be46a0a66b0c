//! Who we are to the remote machine: the key, its passphrase, and where the
//! key is found.

use vstd::prelude::*;
use crate::config::{default_key_path, default_key_text, AppConfig};
use crate::lines::{lines, lines_of, trim, trim_chars, words, words_of};
use crate::paths::{inside, parent_dir, parent_of};
use crate::text::{
    chars_of, opt_str, push_all, push_str, slice_of, starts_with, string_of, vec_eq,
    vec_starts_with, views,
};

verus! {

// ---------------------------------------------------------------------------
// Secrets
// ---------------------------------------------------------------------------

/// `Zeroize::zeroize` of the `zeroize` crate on a `String`: the bytes of the
/// string are overwritten with zeros, and the string is empty afterwards. The
/// call does not panic.
#[verifier::external_body]
fn wipe_string(s: &mut String)
    ensures
        final(s)@ == Seq::<char>::empty(),
    opens_invariants none
    no_unwind
{
    zeroize::Zeroize::zeroize(s)
}

/// A secret text, such as a passphrase. It can be wiped from memory once it
/// has been used.
#[derive(Clone)]
pub struct SecureString {
    inner: String,
}

impl View for SecureString {
    type V = Seq<char>;

    closed spec fn view(&self) -> Seq<char> {
        self.inner@
    }
}

impl SecureString {
    /// Takes over the secret.
    pub fn new(s: String) -> (secret: SecureString)
        ensures
            secret@ == s@,
    {
        SecureString { inner: s }
    }

    /// The secret.
    pub fn as_str(&self) -> (s: &str)
        ensures
            s@ == self@,
    {
        self.inner.as_str()
    }

    /// Wipes the secret from memory: nothing of it is left.
    pub fn wipe(&mut self)
        ensures
            final(self)@ == Seq::<char>::empty(),
    {
        wipe_string(&mut self.inner);
    }
}

impl Drop for SecureString {
    /// The secret is wiped from memory when it is let go.
    fn drop(&mut self)
        opens_invariants none
        no_unwind
    {
        wipe_string(&mut self.inner);
    }
}

/// How to prove who we are.
#[derive(Clone)]
pub enum SshAuth {
    /// With a key, which may need a passphrase.
    Key { path: String, passphrase: Option<SecureString> },
    /// With a key that an agent holds.
    Agent { key_path: String },
}

impl SshAuth {
    /// A key without passphrase.
    pub fn key(path: &str) -> (auth: SshAuth)
        ensures
            auth matches SshAuth::Key { path: p, passphrase } && p@ == path@ && passphrase is None,
    {
        SshAuth::Key { path: path.to_owned(), passphrase: None }
    }

    /// A key with its passphrase.
    pub fn key_with_passphrase(path: &str, passphrase: &str) -> (auth: SshAuth)
        ensures
            auth matches SshAuth::Key { path: p, passphrase: Some(secret) } && p@ == path@
                && secret@ == passphrase@,
    {
        SshAuth::Key {
            path: path.to_owned(),
            passphrase: Some(SecureString::new(passphrase.to_owned())),
        }
    }

    /// A key that an agent holds.
    pub fn agent(key_path: &str) -> (auth: SshAuth)
        ensures
            auth matches SshAuth::Agent { key_path: p } && p@ == key_path@,
    {
        SshAuth::Agent { key_path: key_path.to_owned() }
    }

    /// The path of the key.
    pub fn key_path(&self) -> (path: &str)
        ensures
            path@ == (match self {
                SshAuth::Key { path: p, .. } => p@,
                SshAuth::Agent { key_path: p } => p@,
            }),
    {
        match self {
            SshAuth::Key { path, .. } => path.as_str(),
            SshAuth::Agent { key_path } => key_path.as_str(),
        }
    }

    /// Wipes the passphrase, if there is one, from memory.
    pub fn forget_passphrase(&mut self)
        ensures
            match (*old(self), *final(self)) {
                (
                    SshAuth::Key { path: p, passphrase: Some(_) },
                    SshAuth::Key { path: q, passphrase: Some(wiped) },
                ) => p == q && wiped@ == Seq::<char>::empty(),
                (a, b) => a == b,
            },
    {
        match self {
            SshAuth::Key { passphrase: Some(secret), .. } => {
                secret.wipe();
            },
            _ => {},
        }
    }
}

/// The client side of a session. It has no state.
#[derive(Debug, Clone, Copy, PartialEq, Eq, Structural)]
pub struct SshHandler;

impl SshHandler {
    /// A handler.
    pub fn new() -> (handler: SshHandler) {
        SshHandler
    }
}

impl Default for SshHandler {
    fn default() -> (handler: SshHandler) {
        SshHandler
    }
}

// ---------------------------------------------------------------------------
// Home directories
// ---------------------------------------------------------------------------

/// The path with a leading tilde replaced. `~/rest` becomes the home
/// directory followed by `/rest`. `~name/rest` becomes the directory `name`
/// beside the home directory, followed by `/rest`. Every other path, and
/// every path while the home directory is not known, stays as it is.
pub open spec fn expanded(path: Seq<char>, home: Option<Seq<char>>) -> Seq<char> {
    if starts_with(path, "~/"@) {
        match home {
            Some(h) => h + path.skip(1),
            None => path,
        }
    } else if path.len() > 1 && path[0] == '~' {
        let slash = crate::text::find_from(path, '/', 0);
        match home {
            Some(h) => match parent_dir(h) {
                Some(dir) => if 0 <= slash < path.len() {
                    inside(dir, path.subrange(1, slash)) + path.skip(slash)
                } else {
                    path
                },
                None => path,
            },
            None => path,
        }
    } else {
        path
    }
}

fn expand_chars(path: &Vec<char>, home: Option<&str>) -> (out: Vec<char>)
    ensures
        out@ == expanded(path@, opt_str(home)),
{
    let unchanged = slice_of(path, 0, path.len());
    assert(unchanged@ =~= path@);
    let home = match home {
        Some(h) => h,
        None => {
            return unchanged;
        },
    };
    if vec_starts_with(path, &chars_of("~/")) {
        proof {
            reveal_strlit("~/");
        }
        let mut v = chars_of(home);
        let rest = slice_of(path, 1, path.len());
        push_all(&mut v, &rest);
        proof {
            assert(rest@ =~= path@.skip(1));
        }
        return v;
    }
    if path.len() > 1 && path[0] == '~' {
        let slash = crate::text::find_char(path, '/', 0);
        if slash < path.len() {
            proof {
                crate::text::lemma_find_from(path@, '/', 0);
            }
            match parent_of(&chars_of(home)) {
                Some(dir) => {
                    let mut v = dir;
                    let ghost d = v@;
                    let name = slice_of(path, 1, slash);
                    if v.len() > 0 && v[v.len() - 1] != '/' {
                        push_str(&mut v, "/");
                    }
                    push_all(&mut v, &name);
                    proof {
                        reveal_strlit("/");
                        assert(v@ =~= inside(d, name@));
                    }
                    let rest = slice_of(path, slash, path.len());
                    push_all(&mut v, &rest);
                    proof {
                        assert(rest@ =~= path@.skip(slash as int));
                    }
                    return v;
                },
                None => {},
            }
        }
    }
    unchanged
}

/// The path with a leading tilde replaced by the home directory, or by the
/// directory of another user beside it.
pub fn expand_tilde(path: &str, home: Option<&str>) -> (out: String)
    ensures
        out@ == expanded(path@, opt_str(home)),
{
    let v = expand_chars(&chars_of(path), home);
    string_of(&v)
}

// ---------------------------------------------------------------------------
// The key of a host
// ---------------------------------------------------------------------------

/// Whether one of the first `upto` patterns names the host: it is the host
/// itself or `*`.
pub open spec fn names_host(patterns: Seq<Seq<char>>, host: Seq<char>, upto: int) -> bool
    decreases upto,
{
    if upto <= 0 || upto > patterns.len() {
        false
    } else {
        patterns[upto - 1] == host || patterns[upto - 1] == "*"@ || names_host(
            patterns,
            host,
            upto - 1,
        )
    }
}

/// The identity file that the lines of an SSH client configuration give for
/// the host, read from line `i` on; `matching` tells whether the lines
/// before, back to the last `Host` line, are about the host. Empty lines and
/// comments are passed over. A `Host` line starts a block that is about the
/// host if one of its patterns names it. The first `IdentityFile` line in
/// such a block gives the file.
pub open spec fn identity_from(
    config: Seq<Seq<char>>,
    host: Seq<char>,
    i: int,
    matching: bool,
) -> Option<Seq<char>>
    decreases config.len() - i,
{
    if i < 0 || i >= config.len() {
        None
    } else {
        let line = trim(config[i]);
        if line.len() == 0 || line[0] == '#' {
            identity_from(config, host, i + 1, matching)
        } else if starts_with(line, "Host "@) {
            let patterns = words(line.skip(5));
            identity_from(config, host, i + 1, names_host(patterns, host, patterns.len() as int))
        } else if matching && starts_with(line, "IdentityFile "@) {
            Some(trim(line.skip(13)))
        } else {
            identity_from(config, host, i + 1, matching)
        }
    }
}

/// The identity file that an SSH client configuration gives for the host.
pub open spec fn identity_file(config: Seq<char>, host: Seq<char>) -> Option<Seq<char>> {
    identity_from(lines(config), host, 0, false)
}

fn any_names_host(patterns: &Vec<Vec<char>>, host: &Vec<char>) -> (b: bool)
    ensures
        b == names_host(views(patterns@), host@, patterns.len() as int),
{
    let star = chars_of("*");
    let mut i: usize = patterns.len();
    while i > 0
        invariant
            i <= patterns.len(),
            star@ == "*"@,
            names_host(views(patterns@), host@, patterns.len() as int) == names_host(
                views(patterns@),
                host@,
                i as int,
            ),
        decreases i,
    {
        assert(views(patterns@)[i - 1] == patterns@[i - 1]@);
        if vec_eq(&patterns[i - 1], host) || vec_eq(&patterns[i - 1], &star) {
            return true;
        }
        i -= 1;
    }
    false
}

/// The identity file that an SSH client configuration gives for the host, as
/// it is written there.
pub fn find_identity_file(config: &str, host: &str) -> (file: Option<String>)
    ensures
        match (file, identity_file(config@, host@)) {
            (Some(f), Some(g)) => f@ == g,
            (None, None) => true,
            _ => false,
        },
{
    let all = lines_of(&chars_of(config));
    let target = chars_of(host);
    let host_mark = chars_of("Host ");
    let file_mark = chars_of("IdentityFile ");
    proof {
        reveal_strlit("Host ");
        reveal_strlit("IdentityFile ");
    }
    let mut matching = false;
    let mut i: usize = 0;
    while i < all.len()
        invariant
            i <= all.len(),
            views(all@) == lines(config@),
            target@ == host@,
            host_mark@ == "Host "@,
            host_mark@.len() == 5,
            file_mark@ == "IdentityFile "@,
            file_mark@.len() == 13,
            identity_file(config@, host@) == identity_from(
                lines(config@),
                host@,
                i as int,
                matching,
            ),
        decreases all.len() - i,
    {
        assert(views(all@)[i as int] == all@[i as int]@);
        let line = trim_chars(&all[i]);
        if line.len() == 0 || line[0] == '#' {
        } else if vec_starts_with(&line, &host_mark) {
            let rest = slice_of(&line, 5, line.len());
            proof {
                assert(rest@ =~= line@.skip(5));
            }
            let patterns = words_of(&rest);
            matching = any_names_host(&patterns, &target);
        } else if matching && vec_starts_with(&line, &file_mark) {
            let rest = slice_of(&line, 13, line.len());
            proof {
                assert(rest@ =~= line@.skip(13));
            }
            return Some(string_of(&trim_chars(&rest)));
        }
        i += 1;
    }
    None
}

/// The key that is used when nothing else is configured.
pub const DEFAULT_KEY: &'static str = "~/.ssh/id_rsa";

/// Whether a configured key path names a key of the user's own choice: it
/// is not empty and is neither form of the default, `~/.ssh/id_rsa` or the
/// same file written out below the home directory.
pub open spec fn is_explicit_key(key_path: Seq<char>, home: Option<Seq<char>>) -> bool {
    key_path.len() > 0 && key_path != DEFAULT_KEY@ && key_path != default_key_text(home)
}

/// The path of the key for the configured host. A key path of the user's
/// own choice comes first. Then comes the identity file that the SSH client
/// configuration gives for the host. The default key path comes last. A
/// leading tilde of the path is replaced by the home directory.
pub open spec fn key_path_of(
    key_path: Seq<char>,
    host: Seq<char>,
    home: Option<Seq<char>>,
    ssh_config: Option<Seq<char>>,
) -> Seq<char> {
    if is_explicit_key(key_path, home) {
        expanded(key_path, home)
    } else {
        match ssh_config {
            Some(config) => match identity_file(config, host) {
                Some(file) => expanded(file, home),
                None => expanded(DEFAULT_KEY@, home),
            },
            None => expanded(DEFAULT_KEY@, home),
        }
    }
}

/// The path of the key for the configured host, given the home directory
/// and the text of the SSH client configuration, where they are known.
pub fn get_ssh_key_path(config: &AppConfig, home: Option<&str>, ssh_config: Option<&str>) -> (path:
    String)
    ensures
        path@ == key_path_of(
            config.ssh.key_path@,
            config.ssh.host@,
            opt_str(home),
            opt_str(ssh_config),
        ),
{
    let configured = chars_of(config.ssh.key_path.as_str());
    let written_out = default_key_path(home);
    if configured.len() > 0 && !vec_eq(&configured, &chars_of(DEFAULT_KEY)) && !vec_eq(
        &configured,
        &chars_of(written_out.as_str()),
    ) {
        return expand_tilde(config.ssh.key_path.as_str(), home);
    }
    match ssh_config {
        Some(text) => match find_identity_file(text, config.ssh.host.as_str()) {
            Some(file) => {
                return expand_tilde(file.as_str(), home);
            },
            None => {},
        },
        None => {},
    }
    expand_tilde(DEFAULT_KEY, home)
}

} // verus!
