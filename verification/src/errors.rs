//! Structured error types, each with the sentence that reports it.

use crate::numbers::{decimal, push_decimal};
use crate::text::{from_chars, push_str, to_chars};
use vstd::prelude::*;

verus! {

/// Errors related to remote server operations (SSH, Docker).
#[derive(Debug, Clone)]
pub enum RemoteExecutionError {
    SshConnectionFailed { host: String, message: String },
    SshCommandFailed { host: String, message: String },
    Timeout { host: String, timeout_secs: u64 },
    AuthenticationFailed { host: String, message: String },
    SshKeyNotFound { path: String },
    IoError(String),
}

/// The text of each remote execution error.
pub open spec fn remote_error_text(e: RemoteExecutionError) -> Seq<char> {
    match e {
        RemoteExecutionError::SshConnectionFailed { host, message } => "SSH connection to "@ + host@
            + " failed: "@ + message@,
        RemoteExecutionError::SshCommandFailed { host, message } =>
            "SSH command execution failed on "@ + host@ + ": "@ + message@,
        RemoteExecutionError::Timeout { host, timeout_secs } => "timeout executing command on "@
            + host@ + " (exceeded "@ + decimal(timeout_secs as nat) + "s)"@,
        RemoteExecutionError::AuthenticationFailed { host, message } => "authentication failed for "@
            + host@ + ": "@ + message@,
        RemoteExecutionError::SshKeyNotFound { path } => "SSH key not found at "@ + path@,
        RemoteExecutionError::IoError(message) => "IO error: "@ + message@,
    }
}

impl RemoteExecutionError {
    /// The error as a sentence for the user.
    pub fn message(&self) -> (r: String)
        ensures
            r@ == remote_error_text(*self),
    {
        match self {
            RemoteExecutionError::SshConnectionFailed { host, message } => {
                let mut out = to_chars("SSH connection to ");
                push_str(&mut out, host.as_str());
                push_str(&mut out, " failed: ");
                push_str(&mut out, message.as_str());
                from_chars(&out)
            },
            RemoteExecutionError::SshCommandFailed { host, message } => {
                let mut out = to_chars("SSH command execution failed on ");
                push_str(&mut out, host.as_str());
                push_str(&mut out, ": ");
                push_str(&mut out, message.as_str());
                from_chars(&out)
            },
            RemoteExecutionError::Timeout { host, timeout_secs } => {
                let mut out = to_chars("timeout executing command on ");
                push_str(&mut out, host.as_str());
                push_str(&mut out, " (exceeded ");
                push_decimal(&mut out, *timeout_secs);
                push_str(&mut out, "s)");
                from_chars(&out)
            },
            RemoteExecutionError::AuthenticationFailed { host, message } => {
                let mut out = to_chars("authentication failed for ");
                push_str(&mut out, host.as_str());
                push_str(&mut out, ": ");
                push_str(&mut out, message.as_str());
                from_chars(&out)
            },
            RemoteExecutionError::SshKeyNotFound { path } => {
                let mut out = to_chars("SSH key not found at ");
                push_str(&mut out, path.as_str());
                from_chars(&out)
            },
            RemoteExecutionError::IoError(message) => {
                let mut out = to_chars("IO error: ");
                push_str(&mut out, message.as_str());
                from_chars(&out)
            },
        }
    }
}

/// Errors related to webhook operations.
#[derive(Debug, Clone)]
pub enum WebhookError {
    Unauthorized,
    InvalidPayload(String),
    ExecutionFailed(String),
    ServerError(String),
}

/// The text of each webhook error.
pub open spec fn webhook_error_text(e: WebhookError) -> Seq<char> {
    match e {
        WebhookError::Unauthorized => "unauthorized: invalid token"@,
        WebhookError::InvalidPayload(m) => "invalid payload: "@ + m@,
        WebhookError::ExecutionFailed(m) => "execution failed: "@ + m@,
        WebhookError::ServerError(m) => "server error: "@ + m@,
    }
}

impl WebhookError {
    /// The error as a sentence for the user.
    pub fn message(&self) -> (r: String)
        ensures
            r@ == webhook_error_text(*self),
    {
        match self {
            WebhookError::Unauthorized => {
                let out = to_chars("unauthorized: invalid token");
                from_chars(&out)
            },
            WebhookError::InvalidPayload(m) => {
                let mut out = to_chars("invalid payload: ");
                push_str(&mut out, m.as_str());
                from_chars(&out)
            },
            WebhookError::ExecutionFailed(m) => {
                let mut out = to_chars("execution failed: ");
                push_str(&mut out, m.as_str());
                from_chars(&out)
            },
            WebhookError::ServerError(m) => {
                let mut out = to_chars("server error: ");
                push_str(&mut out, m.as_str());
                from_chars(&out)
            },
        }
    }
}

} // verus!
