//! The remote execution substrate: how a command is run on a server, locally
//! or over SSH, and what its outcome means.
//!
//! Running the process is the caller's part. This module decides which
//! process to run with which arguments, and what to make of how it ended.

use crate::errors::RemoteExecutionError;
use crate::server::{Server, ServerView};
use crate::text::{contains_char, from_chars, has_substring, push_all, to_chars, contains_str};
use crate::tokens::{copy_strings, from_strings, join, join_with, push_row, rows, texts};
use vstd::prelude::*;

verus! {

/// The hard limit on a command's running time, in seconds.
pub const COMMAND_TIMEOUT_SECS: u64 = 120;

/// Handles executing commands either locally or via SSH.
pub struct RemoteExecutor {
    server: Server,
    ssh_key: Option<String>,
}

/// The process to start for a command.
pub enum Invocation {
    /// Start the program itself with the arguments as they are; no shell.
    Local { program: String, args: Vec<String> },
    /// Start the system's `ssh` with these arguments.
    Ssh { args: Vec<String> },
}

/// How a started process ended.
pub enum ProcessEvent {
    /// It ran to its end: whether its exit status was zero, and what it
    /// wrote.
    Finished { success: bool, stdout: String, stderr: String },
    /// The time limit passed first.
    TimedOut,
    /// It could not be started; the text says why.
    SpawnFailed(String),
}

// ---------------------------------------------------------------------------
// Quoting for the remote shell
// ---------------------------------------------------------------------------

/// An argument that the remote shell would not take as one plain word.
pub open spec fn needs_quoting(arg: Seq<char>) -> bool {
    arg.contains(' ') || arg.contains('*') || arg.contains('$')
}

/// `arg` with each single quote written as `'\''`.
pub open spec fn escape_quotes(arg: Seq<char>) -> Seq<char>
    decreases arg.len(),
{
    if arg.len() == 0 {
        Seq::<char>::empty()
    } else if arg.last() == '\'' {
        escape_quotes(arg.drop_last()) + seq!['\'', '\\', '\'', '\'']
    } else {
        escape_quotes(arg.drop_last()).push(arg.last())
    }
}

/// `arg` as one word of a POSIX shell command line.
pub open spec fn quoted(arg: Seq<char>) -> Seq<char> {
    if needs_quoting(arg) {
        seq!['\''] + escape_quotes(arg) + seq!['\'']
    } else {
        arg
    }
}

pub open spec fn quoted_all(args: Seq<Seq<char>>) -> Seq<Seq<char>> {
    Seq::new(args.len(), |i: int| quoted(args[i]))
}

/// The command line handed to the remote shell: the command and its quoted
/// arguments, one space between them.
pub open spec fn remote_command_line(cmd: Seq<char>, args: Seq<Seq<char>>) -> Seq<char> {
    if args.len() == 0 {
        cmd
    } else {
        cmd + seq![' '] + join_with(quoted_all(args), " "@)
    }
}

/// The arguments of `ssh`: no prompts, new host keys accepted, the identity
/// file if one is configured, then the host and the remote command line.
pub open spec fn ssh_arguments(
    ssh_host: Seq<char>,
    ssh_key: Option<Seq<char>>,
    line: Seq<char>,
) -> Seq<Seq<char>> {
    let head = seq!["-o"@, "BatchMode=yes"@, "-o"@, "StrictHostKeyChecking=accept-new"@];
    let keyed = match ssh_key {
        Some(k) => head.push("-i"@).push(k),
        None => head,
    };
    keyed.push(ssh_host).push(line)
}

/// Whether what `ssh` wrote to stderr tells of a failed transport.
pub open spec fn is_transport_failure(stderr: Seq<char>) -> bool {
    has_substring(stderr, "Permission denied"@) || has_substring(stderr, "Connection refused"@)
}

fn quote_argument(arg: &Vec<char>) -> (r: Vec<char>)
    ensures
        r@ == quoted(arg@),
{
    if !(contains_char(arg, ' ') || contains_char(arg, '*') || contains_char(arg, '$')) {
        let mut same: Vec<char> = Vec::new();
        push_all(&mut same, arg);
        assert(same@ =~= arg@);
        return same;
    }
    let mut out: Vec<char> = Vec::new();
    out.push('\'');
    let mut i: usize = 0;
    assert(arg@.subrange(0, 0) =~= Seq::<char>::empty());
    while i < arg.len()
        invariant
            i <= arg.len(),
            out@ == seq!['\''] + escape_quotes(arg@.subrange(0, i as int)),
        decreases arg.len() - i,
    {
        let ghost before = arg@.subrange(0, i as int);
        let ghost after = arg@.subrange(0, i + 1);
        assert(after.drop_last() =~= before);
        assert(after.last() == arg@[i as int]);
        if arg[i] == '\'' {
            out.push('\'');
            out.push('\\');
            out.push('\'');
            out.push('\'');
            assert(out@ =~= seq!['\''] + escape_quotes(after));
        } else {
            out.push(arg[i]);
            assert(out@ =~= seq!['\''] + escape_quotes(after));
        }
        i += 1;
    }
    assert(arg@.subrange(0, arg@.len() as int) =~= arg@);
    out.push('\'');
    assert(out@ =~= quoted(arg@));
    out
}

/// The command line for the remote shell.
pub fn build_remote_command(cmd: &str, args: &Vec<String>) -> (r: String)
    ensures
        r@ == remote_command_line(cmd@, texts(args@)),
{
    let mut out = to_chars(cmd);
    if args.len() == 0 {
        return from_chars(&out);
    }
    let plain = from_strings(args);
    let mut words: Vec<Vec<char>> = Vec::new();
    let mut i: usize = 0;
    while i < plain.len()
        invariant
            i <= plain.len(),
            rows(plain@) == texts(args@),
            rows(words@) =~= quoted_all(texts(args@)).subrange(0, i as int),
        decreases plain.len() - i,
    {
        let q = quote_argument(&plain[i]);
        assert(rows(plain@)[i as int] == plain@[i as int]@);
        push_row(&mut words, q);
        i += 1;
    }
    assert(rows(plain@).len() == plain@.len());
    assert(quoted_all(texts(args@)).subrange(0, plain@.len() as int) =~= quoted_all(texts(args@)));
    out.push(' ');
    let tail = join(&words, " ");
    push_all(&mut out, &tail);
    assert(out@ =~= remote_command_line(cmd@, texts(args@)));
    from_chars(&out)
}

/// What to make of how a local process ended: whatever it wrote to stdout,
/// whatever its exit status; only a process that ran out of time or could
/// not be started is an error.
pub fn interpret_local(host_text: &str, event: ProcessEvent) -> (r: Result<
    String,
    RemoteExecutionError,
>)
    ensures
        match event {
            ProcessEvent::Finished { success, stdout, stderr } => r matches Ok(out) && out@
                == stdout@,
            ProcessEvent::TimedOut => r matches Err(
                RemoteExecutionError::Timeout { host, timeout_secs },
            ) && host@ == host_text@ && timeout_secs == COMMAND_TIMEOUT_SECS,
            ProcessEvent::SpawnFailed(why) => r matches Err(RemoteExecutionError::IoError(m))
                && m@ == why@,
        },
{
    match event {
        ProcessEvent::Finished { success, stdout, stderr } => Ok(stdout),
        ProcessEvent::TimedOut => Err(
            RemoteExecutionError::Timeout {
                host: host_text.to_string(),
                timeout_secs: COMMAND_TIMEOUT_SECS,
            },
        ),
        ProcessEvent::SpawnFailed(why) => Err(RemoteExecutionError::IoError(why)),
    }
}

/// What to make of how `ssh` ended: a non-zero exit status fails the call
/// only where stderr tells of a refused or denied connection; otherwise the
/// remote command's stdout is the result.
pub fn interpret_ssh(host_text: &str, event: ProcessEvent) -> (r: Result<
    String,
    RemoteExecutionError,
>)
    ensures
        match event {
            ProcessEvent::Finished { success, stdout, stderr } => if !success
                && is_transport_failure(stderr@) {
                r matches Err(RemoteExecutionError::SshConnectionFailed { host, message })
                    && host@ == host_text@ && message@ == stderr@
            } else {
                r matches Ok(out) && out@ == stdout@
            },
            ProcessEvent::TimedOut => r matches Err(
                RemoteExecutionError::Timeout { host, timeout_secs },
            ) && host@ == host_text@ && timeout_secs == COMMAND_TIMEOUT_SECS,
            ProcessEvent::SpawnFailed(why) => r matches Err(RemoteExecutionError::IoError(m))
                && m@ == why@,
        },
{
    match event {
        ProcessEvent::Finished { success, stdout, stderr } => {
            if !success {
                let err = to_chars(stderr.as_str());
                if contains_str(&err, "Permission denied") || contains_str(
                    &err,
                    "Connection refused",
                ) {
                    return Err(
                        RemoteExecutionError::SshConnectionFailed {
                            host: host_text.to_string(),
                            message: stderr,
                        },
                    );
                }
            }
            Ok(stdout)
        },
        ProcessEvent::TimedOut => Err(
            RemoteExecutionError::Timeout {
                host: host_text.to_string(),
                timeout_secs: COMMAND_TIMEOUT_SECS,
            },
        ),
        ProcessEvent::SpawnFailed(why) => Err(RemoteExecutionError::IoError(why)),
    }
}

impl RemoteExecutor {
    pub closed spec fn server_view(&self) -> ServerView {
        self.server@
    }

    pub closed spec fn key_view(&self) -> Option<Seq<char>> {
        match self.ssh_key {
            Some(k) => Some(k@),
            None => None,
        }
    }

    /// An executor for `server`, with the identity file to use over SSH if
    /// there is one. This never fails.
    pub fn new(server: Server, ssh_key: Option<&str>) -> (r: Result<Self, RemoteExecutionError>)
        ensures
            r matches Ok(e) && e.server_view() == server@ && e.key_view() == match ssh_key {
                Some(k) => Some(k@),
                None => None,
            },
    {
        let key = match ssh_key {
            Some(k) => Some(k.to_string()),
            None => None,
        };
        Ok(RemoteExecutor { server, ssh_key: key })
    }

    /// Get reference to the server.
    pub fn server(&self) -> (r: &Server)
        ensures
            r@ == self.server_view(),
    {
        &self.server
    }

    /// The name of the server.
    pub fn server_name(&self) -> (r: &str)
        ensures
            r@ == self.server_view().name,
    {
        self.server.name.as_str()
    }

    /// The process to start for `cmd` with `args`: the command itself on the
    /// local server, `ssh` with the quoted command line on a remote one.
    pub fn plan(&self, cmd: &str, args: &Vec<String>) -> (r: Invocation)
        ensures
            match self.server_view().ssh_host {
                None => r matches Invocation::Local { program, args: a } && program@ == cmd@
                    && texts(a@) == texts(args@),
                Some(host) => r matches Invocation::Ssh { args: a } && texts(a@) == ssh_arguments(
                    host,
                    self.key_view(),
                    remote_command_line(cmd@, texts(args@)),
                ),
            },
    {
        match &self.server.ssh_host {
            None => {
                Invocation::Local { program: cmd.to_string(), args: copy_strings(args) }
            },
            Some(host) => {
                let line = build_remote_command(cmd, args);
                let mut a: Vec<String> = Vec::new();
                a.push("-o".to_string());
                a.push("BatchMode=yes".to_string());
                a.push("-o".to_string());
                a.push("StrictHostKeyChecking=accept-new".to_string());
                match &self.ssh_key {
                    Some(k) => {
                        a.push("-i".to_string());
                        a.push(k.clone());
                    },
                    None => {},
                }
                a.push(host.clone());
                a.push(line);
                assert(texts(a@) =~= ssh_arguments(
                    host@,
                    self.key_view(),
                    remote_command_line(cmd@, texts(args@)),
                ));
                Invocation::Ssh { args: a }
            },
        }
    }

    /// What the outcome of the planned process means for the caller.
    pub fn interpret(&self, event: ProcessEvent) -> (r: Result<String, RemoteExecutionError>)
        ensures
            match event {
                ProcessEvent::Finished { success, stdout, stderr } => if !success
                    && self.server_view().ssh_host is Some && is_transport_failure(stderr@) {
                    r matches Err(RemoteExecutionError::SshConnectionFailed { host, message })
                        && message@ == stderr@ && Some(host@) == self.server_view().ssh_host
                } else {
                    r matches Ok(out) && out@ == stdout@
                },
                ProcessEvent::TimedOut => r matches Err(
                    RemoteExecutionError::Timeout { host, timeout_secs },
                ) && timeout_secs == COMMAND_TIMEOUT_SECS && host@ == (match self.server_view().ssh_host {
                    Some(h) => h,
                    None => self.server_view().name,
                }),
                ProcessEvent::SpawnFailed(why) => r matches Err(RemoteExecutionError::IoError(m))
                    && m@ == why@,
            },
    {
        match &self.server.ssh_host {
            None => interpret_local(self.server.name.as_str(), event),
            Some(host) => interpret_ssh(host.as_str(), event),
        }
    }
}

} // verus!
