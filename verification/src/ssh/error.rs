//! What can go wrong when talking to the remote machine.

use vstd::prelude::*;
use crate::numbers::{decimal, push_decimal};
use crate::text::{push_str, string_of};

verus! {

/// A way to prove who one is.
#[derive(Debug, Clone, Copy, PartialEq, Eq, Structural)]
pub enum AuthMethod {
    PublicKey,
    Password,
    Agent,
    Certificate,
}

impl AuthMethod {
    /// The name of the method.
    pub open spec fn name(self) -> Seq<char> {
        match self {
            AuthMethod::PublicKey => "public key"@,
            AuthMethod::Password => "password"@,
            AuthMethod::Agent => "ssh-agent"@,
            AuthMethod::Certificate => "certificate"@,
        }
    }

    /// The name of the method.
    pub fn as_str(&self) -> (s: &'static str)
        ensures
            s@ == self.name(),
    {
        match self {
            AuthMethod::PublicKey => "public key",
            AuthMethod::Password => "password",
            AuthMethod::Agent => "ssh-agent",
            AuthMethod::Certificate => "certificate",
        }
    }
}

/// An error of an SSH operation.
#[derive(Debug)]
#[allow(inconsistent_fields)]
pub enum SshError {
    /// The connection could not be made.
    ConnectionFailed { host: String, port: u16, reason: String },
    /// The remote machine did not accept who we are.
    AuthenticationFailed { username: String, method: AuthMethod, reason: String },
    /// The key could not be read.
    KeyError { path: String, reason: String },
    /// A channel could not be opened or used.
    ChannelError { operation: String, reason: String },
    /// The command ran and failed.
    CommandFailed { command: String, exit_code: Option<u32>, stderr: String },
    /// Files could not be transferred.
    TransferError { source: String, destination: String, reason: String },
    /// The pool gave no connection.
    PoolError { reason: String },
    /// The configuration is wrong.
    ConfigError { field: String, reason: String },
    /// The operation took too long.
    Timeout { operation: String, duration_secs: u64 },
    /// An error of the SSH protocol, by its message.
    RusshError { message: String },
    /// An error of input or output, by its message.
    IoError { message: String },
    /// Another error, with what was being done and, where known, the error
    /// behind it.
    Other { context: String, source: Option<Box<SshError>> },
}

/// A result of an SSH operation.
pub type Result<T> = std::result::Result<T, SshError>;

impl SshError {
    /// The message of the error.
    pub open spec fn text(self) -> Seq<char>
        decreases self,
    {
        match self {
            SshError::ConnectionFailed { host, port, reason } => "Connection to "@ + host@ + ":"@
                + decimal(port as nat) + " failed: "@ + reason@,
            SshError::AuthenticationFailed {
                username,
                method,
                reason,
            } => "Authentication failed for user '"@ + username@ + "' with "@ + method.name()
                + ": "@ + reason@,
            SshError::KeyError { path, reason } => "Key error for '"@ + path@ + "': "@ + reason@,
            SshError::ChannelError { operation, reason } => "Channel operation '"@ + operation@
                + "' failed: "@ + reason@,
            SshError::CommandFailed { command, exit_code, stderr } => match exit_code {
                Some(code) => "Command '"@ + command@ + "' failed with exit code "@ + decimal(
                    code as nat,
                ) + ": "@ + stderr@,
                None => "Command '"@ + command@ + "' failed: "@ + stderr@,
            },
            SshError::TransferError { source, destination, reason } => "Transfer from '"@
                + source@ + "' to '"@ + destination@ + "' failed: "@ + reason@,
            SshError::PoolError { reason } => "Connection pool error: "@ + reason@,
            SshError::ConfigError { field, reason } => "Configuration error in '"@ + field@
                + "': "@ + reason@,
            SshError::Timeout { operation, duration_secs } => "Operation '"@ + operation@
                + "' timed out after "@ + decimal(duration_secs as nat) + " seconds"@,
            SshError::RusshError { message } => "SSH protocol error: "@ + message@,
            SshError::IoError { message } => "I/O error: "@ + message@,
            SshError::Other { context, source } => match source {
                Some(inner) => context@ + ": "@ + inner.text(),
                None => context@,
            },
        }
    }

    fn push_message(&self, v: &mut Vec<char>)
        ensures
            final(v)@ == old(v)@ + self.text(),
        decreases self,
    {
        let ghost before = v@;
        match self {
            SshError::ConnectionFailed { host, port, reason } => {
                push_str(v, "Connection to ");
                push_str(v, host.as_str());
                push_str(v, ":");
                push_decimal(v, *port as u64);
                push_str(v, " failed: ");
                push_str(v, reason.as_str());
            },
            SshError::AuthenticationFailed { username, method, reason } => {
                push_str(v, "Authentication failed for user '");
                push_str(v, username.as_str());
                push_str(v, "' with ");
                push_str(v, method.as_str());
                push_str(v, ": ");
                push_str(v, reason.as_str());
            },
            SshError::KeyError { path, reason } => {
                push_str(v, "Key error for '");
                push_str(v, path.as_str());
                push_str(v, "': ");
                push_str(v, reason.as_str());
            },
            SshError::ChannelError { operation, reason } => {
                push_str(v, "Channel operation '");
                push_str(v, operation.as_str());
                push_str(v, "' failed: ");
                push_str(v, reason.as_str());
            },
            SshError::CommandFailed { command, exit_code, stderr } => {
                push_str(v, "Command '");
                push_str(v, command.as_str());
                match exit_code {
                    Some(code) => {
                        push_str(v, "' failed with exit code ");
                        push_decimal(v, *code as u64);
                        push_str(v, ": ");
                    },
                    None => {
                        push_str(v, "' failed: ");
                    },
                }
                push_str(v, stderr.as_str());
            },
            SshError::TransferError { source, destination, reason } => {
                push_str(v, "Transfer from '");
                push_str(v, source.as_str());
                push_str(v, "' to '");
                push_str(v, destination.as_str());
                push_str(v, "' failed: ");
                push_str(v, reason.as_str());
            },
            SshError::PoolError { reason } => {
                push_str(v, "Connection pool error: ");
                push_str(v, reason.as_str());
            },
            SshError::ConfigError { field, reason } => {
                push_str(v, "Configuration error in '");
                push_str(v, field.as_str());
                push_str(v, "': ");
                push_str(v, reason.as_str());
            },
            SshError::Timeout { operation, duration_secs } => {
                push_str(v, "Operation '");
                push_str(v, operation.as_str());
                push_str(v, "' timed out after ");
                push_decimal(v, *duration_secs);
                push_str(v, " seconds");
            },
            SshError::RusshError { message } => {
                push_str(v, "SSH protocol error: ");
                push_str(v, message.as_str());
            },
            SshError::IoError { message } => {
                push_str(v, "I/O error: ");
                push_str(v, message.as_str());
            },
            SshError::Other { context, source } => {
                push_str(v, context.as_str());
                match source {
                    Some(inner) => {
                        push_str(v, ": ");
                        inner.push_message(v);
                    },
                    None => {},
                }
            },
        }
        proof {
            assert(v@ =~= before + self.text());
        }
    }

    /// The message of the error.
    pub fn message(&self) -> (s: String)
        ensures
            s@ == self.text(),
    {
        let mut v: Vec<char> = Vec::new();
        self.push_message(&mut v);
        proof {
            assert(Seq::<char>::empty() + self.text() =~= self.text());
        }
        string_of(&v)
    }

    /// The connection could not be made.
    pub fn connection_failed(host: &str, port: u16, reason: &str) -> (e: SshError)
        ensures
            e matches SshError::ConnectionFailed { host: h, port: p, reason: r } && h@ == host@
                && p == port && r@ == reason@,
    {
        SshError::ConnectionFailed { host: host.to_owned(), port, reason: reason.to_owned() }
    }

    /// The remote machine did not accept who we are.
    pub fn auth_failed(username: &str, method: AuthMethod, reason: &str) -> (e: SshError)
        ensures
            e matches SshError::AuthenticationFailed { username: u, method: m, reason: r } && u@
                == username@ && m == method && r@ == reason@,
    {
        SshError::AuthenticationFailed {
            username: username.to_owned(),
            method,
            reason: reason.to_owned(),
        }
    }

    /// The key could not be read.
    pub fn key_error(path: &str, reason: &str) -> (e: SshError)
        ensures
            e matches SshError::KeyError { path: p, reason: r } && p@ == path@ && r@ == reason@,
    {
        SshError::KeyError { path: path.to_owned(), reason: reason.to_owned() }
    }

    /// The command ran and failed.
    pub fn command_failed(command: &str, exit_code: Option<u32>, stderr: &str) -> (e: SshError)
        ensures
            e matches SshError::CommandFailed { command: c, exit_code: x, stderr: s } && c@
                == command@ && x == exit_code && s@ == stderr@,
    {
        SshError::CommandFailed {
            command: command.to_owned(),
            exit_code,
            stderr: stderr.to_owned(),
        }
    }

    /// The operation took too long.
    pub fn timeout(operation: &str, duration_secs: u64) -> (e: SshError)
        ensures
            e matches SshError::Timeout { operation: o, duration_secs: d } && o@ == operation@
                && d == duration_secs,
    {
        SshError::Timeout { operation: operation.to_owned(), duration_secs }
    }

    /// Another error, with what was being done.
    pub fn other(context: &str) -> (e: SshError)
        ensures
            e matches SshError::Other { context: c, source: s } && c@ == context@ && s is None,
    {
        SshError::Other { context: context.to_owned(), source: None }
    }

    /// The error, with what was being done when it came up.
    pub fn with_context(self, context: &str) -> (e: SshError)
        ensures
            e matches SshError::Other { context: c, source: s } && c@ == context@ && s
                == Some(Box::new(self)),
            e.text() == context@ + ": "@ + self.text(),
    {
        SshError::Other { context: context.to_owned(), source: Some(Box::new(self)) }
    }
}

} // verus!
