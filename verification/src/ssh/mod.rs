//! Talking to the remote machine over SSH: errors, authentication, commands
//! and file transfer. The connections themselves are made elsewhere; here
//! stands what is decided before a call and what is made of its result.

pub mod auth;
pub mod control_master;
pub mod error;
pub mod executor;
pub mod pool;
pub mod transfer;

use vstd::prelude::*;
use crate::ssh::auth::SshAuth;
use crate::text::{chars_of, push_all, slice_of, starts_with, string_of, vec_starts_with};

verus! {

/// Whether the key can be used.
#[derive(Debug, Clone)]
pub enum SshKeyStatus {
    /// The key can be used as it is.
    Ready,
    /// The key needs a passphrase.
    NeedsPassphrase { key_path: String },
    /// There is no key file.
    NoKey { expected_path: String },
}

/// The path of a key file with a leading `~/` replaced by the home
/// directory, or by the current directory where the home directory is not
/// known.
pub open spec fn key_file_text(path: Seq<char>, home: Option<Seq<char>>) -> Seq<char> {
    if starts_with(path, "~/"@) {
        (match home {
            Some(h) => h,
            None => "."@,
        }) + path.skip(1)
    } else {
        path
    }
}

/// The file in which the key of `auth` is looked for.
pub fn key_file(auth: &SshAuth, home: Option<&str>) -> (file: String)
    ensures
        file@ == key_file_text(
            (match auth {
                SshAuth::Key { path, .. } => path@,
                SshAuth::Agent { key_path } => key_path@,
            }),
            crate::text::opt_str(home),
        ),
{
    let path = chars_of(auth.key_path());
    if vec_starts_with(&path, &chars_of("~/")) {
        proof {
            reveal_strlit("~/");
        }
        let mut v = match home {
            Some(h) => chars_of(h),
            None => chars_of("."),
        };
        let rest = slice_of(&path, 1, path.len());
        proof {
            assert(rest@ =~= path@.skip(1));
        }
        push_all(&mut v, &rest);
        string_of(&v)
    } else {
        string_of(&path)
    }
}

/// Whether the key can be used, given whether its file exists and whether
/// the key can be read without a passphrase. Without a file there is no key.
/// A key that comes with its passphrase, or is held by an agent, is ready. A
/// key without passphrase is ready if it can be read, and needs a passphrase
/// if it cannot.
pub fn check_key_status(auth: &SshAuth, home: Option<&str>, exists: bool, loads: bool) -> (status:
    SshKeyStatus)
    ensures
        !exists ==> (status matches SshKeyStatus::NoKey { expected_path } && expected_path@
            == key_file_text(
            (match auth {
                SshAuth::Key { path, .. } => path@,
                SshAuth::Agent { key_path } => key_path@,
            }),
            crate::text::opt_str(home),
        )),
        exists ==> (match auth {
            SshAuth::Key { path, passphrase: None } => if loads {
                status is Ready
            } else {
                status matches SshKeyStatus::NeedsPassphrase { key_path } && key_path@ == path@
            },
            _ => status is Ready,
        }),
{
    if !exists {
        return SshKeyStatus::NoKey { expected_path: key_file(auth, home) };
    }
    match auth {
        SshAuth::Key { path, passphrase } => {
            if passphrase.is_none() && !loads {
                SshKeyStatus::NeedsPassphrase { key_path: path.clone() }
            } else {
                SshKeyStatus::Ready
            }
        },
        SshAuth::Agent { .. } => SshKeyStatus::Ready,
    }
}

} // verus!
