//! Running a command on the remote machine: what is made of the messages of
//! its channel, and the commands for detached sessions and logs.

use vstd::prelude::*;
use crate::lines::{trim, trim_chars};
use crate::numbers::{decimal, push_decimal};
use crate::ssh::error::SshError;
use crate::text::{chars_of, concat2, concat3, push_str, string_of, vec_eq};

verus! {

/// Seconds that a command may take unless the caller says otherwise.
pub const DEFAULT_COMMAND_TIMEOUT_SECS: u64 = 300;

/// The exit code reported for a command whose channel closed without one.
pub const MISSING_EXIT_CODE: u32 = 255;

/// What a command printed and how it ended.
#[derive(Debug, Clone)]
pub struct CommandResult {
    /// What the command wrote to its standard output.
    pub stdout: String,
    /// What the command wrote to its standard error.
    pub stderr: String,
    /// The exit code: 0 for success.
    pub exit_code: u32,
}

impl CommandResult {
    /// Whether the command succeeded: its exit code is 0.
    pub fn success(&self) -> (ok: bool)
        ensures
            ok == (self.exit_code == 0),
    {
        self.exit_code == 0
    }

    /// The standard output of a command that succeeded; for one that
    /// failed, the error with its exit code and its standard error.
    pub fn into_result(self) -> (r: Result<String, SshError>)
        ensures
            self.exit_code == 0 ==> r is Ok && r->Ok_0@ == self.stdout@,
            self.exit_code != 0 ==> r is Err && (r->Err_0 matches SshError::CommandFailed {
                command,
                exit_code,
                stderr,
            } && command@ == "command"@ && exit_code == Some(self.exit_code) && stderr@
                == self.stderr@),
    {
        if self.success() {
            Ok(self.stdout)
        } else {
            Err(SshError::command_failed("command", Some(self.exit_code), self.stderr.as_str()))
        }
    }

    /// The standard output of the command, however it ended.
    pub fn into_stdout(self) -> (out: String)
        ensures
            out@ == self.stdout@,
    {
        self.stdout
    }
}

/// A message of the channel on which a command runs.
#[derive(Debug, Clone)]
pub enum ChannelEvent {
    /// Bytes of the standard output.
    Data(Vec<u8>),
    /// Bytes of another stream; stream 1 is the standard error.
    ExtendedData { data: Vec<u8>, ext: u32 },
    /// The exit code of the command.
    ExitStatus(u32),
    /// No more data comes.
    Eof,
    /// The channel is closed.
    Close,
    /// Any other message.
    Other,
}

/// The text that bytes stand for, read as UTF-8 with a replacement character
/// in place of each invalid sequence.
pub uninterp spec fn utf8_lossy(bytes: Seq<u8>) -> Seq<char>;

/// `String::from_utf8_lossy`: the bytes as text, with U+FFFD in place of what
/// is not valid UTF-8.
#[verifier::external_body]
fn lossy_text(bytes: &Vec<u8>) -> (text: String)
    ensures
        text@ == utf8_lossy(bytes@),
{
    String::from_utf8_lossy(bytes).into_owned()
}

/// What has come in over the channel of a command so far.
pub struct CommandOutput {
    out: Vec<u8>,
    err: Vec<u8>,
    code: Option<u32>,
}

fn extend(v: &mut Vec<u8>, more: &Vec<u8>)
    ensures
        final(v)@ == old(v)@ + more@,
{
    let mut i: usize = 0;
    while i < more.len()
        invariant
            i <= more.len(),
            v@ == old(v)@ + more@.take(i as int),
        decreases more.len() - i,
    {
        v.push(more[i]);
        i += 1;
    }
}

impl CommandOutput {
    /// The bytes of the standard output so far.
    pub closed spec fn out(&self) -> Seq<u8> {
        self.out@
    }

    /// The bytes of the standard error so far.
    pub closed spec fn err(&self) -> Seq<u8> {
        self.err@
    }

    /// The exit code, once it has come.
    pub closed spec fn code(&self) -> Option<u32> {
        self.code
    }

    /// Nothing has come in yet.
    pub fn new() -> (output: CommandOutput)
        ensures
            output.out() == Seq::<u8>::empty(),
            output.err() == Seq::<u8>::empty(),
            output.code() == None::<u32>,
    {
        CommandOutput { out: Vec::new(), err: Vec::new(), code: None }
    }

    /// Takes in one message and tells whether to wait for more. Data goes to
    /// the standard output, data of stream 1 to the standard error, an exit
    /// status is kept; a closed channel ends the waiting. Everything else is
    /// passed over.
    pub fn take(&mut self, event: &ChannelEvent) -> (more: bool)
        ensures
            more == !(event is Close),
            final(self).out() == (match event {
                ChannelEvent::Data(data) => old(self).out() + data@,
                _ => old(self).out(),
            }),
            final(self).err() == (match event {
                ChannelEvent::ExtendedData { data, ext } => if *ext == 1 {
                    old(self).err() + data@
                } else {
                    old(self).err()
                },
                _ => old(self).err(),
            }),
            final(self).code() == (match event {
                ChannelEvent::ExitStatus(code) => Some(*code),
                _ => old(self).code(),
            }),
    {
        match event {
            ChannelEvent::Data(data) => {
                extend(&mut self.out, data);
                true
            },
            ChannelEvent::ExtendedData { data, ext } => {
                if *ext == 1 {
                    extend(&mut self.err, data);
                }
                true
            },
            ChannelEvent::ExitStatus(code) => {
                self.code = Some(*code);
                true
            },
            ChannelEvent::Close => false,
            _ => true,
        }
    }

    /// The result of the command: what came in as text, and the exit code,
    /// which is 255 when none came.
    pub fn finish(self) -> (result: CommandResult)
        ensures
            result.stdout@ == utf8_lossy(self.out()),
            result.stderr@ == utf8_lossy(self.err()),
            result.exit_code == (match self.code() {
                Some(code) => code,
                None => MISSING_EXIT_CODE,
            }),
    {
        CommandResult {
            stdout: lossy_text(&self.out),
            stderr: lossy_text(&self.err),
            exit_code: match self.code {
                Some(code) => code,
                None => MISSING_EXIT_CODE,
            },
        }
    }
}

/// The error of a command that took longer than it may.
pub fn timeout_error(secs: u64) -> (e: SshError)
    ensures
        e matches SshError::Timeout { operation, duration_secs } && operation@
            == "command execution"@ && duration_secs == secs,
{
    SshError::timeout("command execution", secs)
}

/// The error of a channel that could not be opened or used.
pub fn channel_error(operation: &str, reason: &str) -> (e: SshError)
    ensures
        e matches SshError::ChannelError { operation: o, reason: r } && o@ == operation@ && r@
            == reason@,
{
    SshError::ChannelError { operation: operation.to_owned(), reason: reason.to_owned() }
}

/// The command that prints `yes` if the session exists and `no` if not.
pub fn tmux_session_exists_command(session_name: &str) -> (command: String)
    ensures
        command@ == "tmux has-session -t "@ + session_name@
            + " 2>/dev/null && echo yes || echo no"@,
{
    concat3("tmux has-session -t ", session_name, " 2>/dev/null && echo yes || echo no")
}

/// Whether the answer to the command above says that the session exists.
pub fn session_exists(output: &str) -> (exists: bool)
    ensures
        exists == (trim(output@) == "yes"@),
{
    let t = trim_chars(&chars_of(output));
    vec_eq(&t, &chars_of("yes"))
}

/// Whether the answer to `echo ok` came back as it should.
pub fn connection_ok(output: &str) -> (ok: bool)
    ensures
        ok == (trim(output@) == "ok"@),
{
    let t = trim_chars(&chars_of(output));
    vec_eq(&t, &chars_of("ok"))
}

/// The command that interrupts what runs in the session.
pub fn tmux_send_ctrl_c_command(session_name: &str) -> (command: String)
    ensures
        command@ == "tmux send-keys -t "@ + session_name@ + " C-c"@,
{
    concat3("tmux send-keys -t ", session_name, " C-c")
}

/// The command that ends the session by force.
pub fn tmux_kill_session_command(session_name: &str) -> (command: String)
    ensures
        command@ == "tmux kill-session -t "@ + session_name@,
{
    concat2("tmux kill-session -t ", session_name)
}

/// The command that prints the last lines of a log, and nothing when the log
/// cannot be read.
pub open spec fn tail_logs_text(log_file: Seq<char>, lines: u32) -> Seq<char> {
    "tail -n "@ + decimal(lines as nat) + " "@ + log_file + " 2>/dev/null || echo ''"@
}

/// The command that prints the last `lines` lines of a log.
pub fn tail_logs_command(log_file: &str, lines: u32) -> (command: String)
    ensures
        command@ == tail_logs_text(log_file@, lines),
{
    let mut v = chars_of("tail -n ");
    push_decimal(&mut v, lines as u64);
    push_str(&mut v, " ");
    push_str(&mut v, log_file);
    push_str(&mut v, " 2>/dev/null || echo ''");
    proof {
        assert(v@ =~= tail_logs_text(log_file@, lines));
    }
    string_of(&v)
}

/// The name of the session of a job that was started by hand.
pub fn job_session_name(job_id: i64) -> (name: String)
    ensures
        name@ == "job_"@ + crate::numbers::signed_decimal(job_id as int),
{
    let mut v = chars_of("job_");
    crate::numbers::push_signed_decimal(&mut v, job_id);
    string_of(&v)
}

} // verus!
