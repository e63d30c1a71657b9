use fleetops::errors::{RemoteExecutionError, WebhookError};
use fleetops::executor::{
    build_remote_command, interpret_local, interpret_ssh, Invocation, ProcessEvent, RemoteExecutor,
    COMMAND_TIMEOUT_SECS,
};
use fleetops::server::Server;

fn strings(v: &[&str]) -> Vec<String> {
    v.iter().map(|s| s.to_string()).collect()
}

fn finished(success: bool, stdout: &str, stderr: &str) -> ProcessEvent {
    ProcessEvent::Finished { success, stdout: stdout.to_string(), stderr: stderr.to_string() }
}

#[test]
fn remote_command_without_arguments_is_the_command() {
    assert_eq!(build_remote_command("/usr/bin/checkupdates", &vec![]), "/usr/bin/checkupdates");
}

#[test]
fn remote_command_quotes_spaces_stars_and_dollars() {
    assert_eq!(
        build_remote_command("sh", &strings(&["-c", "test -x /usr/bin/apt && echo found"])),
        "sh -c 'test -x /usr/bin/apt && echo found'"
    );
    assert_eq!(build_remote_command("ls", &strings(&["*.txt", "$HOME", "plain"])), "ls '*.txt' '$HOME' plain");
    assert_eq!(
        build_remote_command("echo", &strings(&["it's here", "it's", ""])),
        "echo 'it'\\''s here' it's "
    );
    assert_eq!(
        build_remote_command("/usr/bin/docker", &strings(&["image", "ls", "--format", "{{json .}}"])),
        "/usr/bin/docker image ls --format '{{json .}}'"
    );
}

#[test]
fn local_plan_runs_the_program_itself() {
    let e = RemoteExecutor::new(Server::local(), Some("/k")).unwrap();
    match e.plan("apt", &strings(&["list", "--upgradable"])) {
        Invocation::Local { program, args } => {
            assert_eq!(program, "apt");
            assert_eq!(args, strings(&["list", "--upgradable"]));
        }
        Invocation::Ssh { .. } => panic!("local server planned over ssh"),
    }
    assert!(e.server().is_local());
    assert_eq!(e.server_name(), "localhost");
}

#[test]
fn ssh_plan_without_and_with_key() {
    let s = Server::parse("web:root@10.0.0.1").unwrap();
    let e = RemoteExecutor::new(s.duplicate(), None).unwrap();
    match e.plan("dnf", &strings(&["check-update", "--quiet"])) {
        Invocation::Ssh { args } => assert_eq!(
            args,
            strings(&[
                "-o",
                "BatchMode=yes",
                "-o",
                "StrictHostKeyChecking=accept-new",
                "root@10.0.0.1",
                "dnf check-update --quiet"
            ])
        ),
        Invocation::Local { .. } => panic!("remote server planned locally"),
    }
    let k = RemoteExecutor::new(s, Some("/home/u/.ssh/id")).unwrap();
    match k.plan("uptime", &vec![]) {
        Invocation::Ssh { args } => assert_eq!(
            args,
            strings(&[
                "-o",
                "BatchMode=yes",
                "-o",
                "StrictHostKeyChecking=accept-new",
                "-i",
                "/home/u/.ssh/id",
                "root@10.0.0.1",
                "uptime"
            ])
        ),
        Invocation::Local { .. } => panic!("remote server planned locally"),
    }
    assert_eq!(k.server().name, "web");
}

#[test]
fn local_exit_status_never_raises() {
    assert_eq!(interpret_local("h", finished(false, "out", "Permission denied")).unwrap(), "out");
    assert_eq!(interpret_local("h", finished(true, "", "")).unwrap(), "");
    let e = RemoteExecutor::new(Server::local(), None).unwrap();
    assert_eq!(e.interpret(finished(false, "100 updates", "Connection refused")).unwrap(), "100 updates");
}

#[test]
fn local_timeout_and_spawn_failure_raise() {
    match interpret_local("box", ProcessEvent::TimedOut) {
        Err(RemoteExecutionError::Timeout { host, timeout_secs }) => {
            assert_eq!(host, "box");
            assert_eq!(timeout_secs, 120);
            assert_eq!(COMMAND_TIMEOUT_SECS, 120);
        }
        other => panic!("unexpected {:?}", other),
    }
    match interpret_local("box", ProcessEvent::SpawnFailed("no such file".to_string())) {
        Err(RemoteExecutionError::IoError(m)) => assert_eq!(m, "no such file"),
        other => panic!("unexpected {:?}", other),
    }
}

#[test]
fn ssh_fails_only_on_denied_or_refused() {
    assert_eq!(interpret_ssh("u@h", finished(false, "out", "exit 100")).unwrap(), "out");
    assert_eq!(interpret_ssh("u@h", finished(true, "out", "Permission denied")).unwrap(), "out");
    assert_eq!(interpret_ssh("u@h", finished(false, "out", "permission denied")).unwrap(), "out");
    for stderr in ["u@h: Permission denied (publickey).", "ssh: connect to host h port 22: Connection refused"] {
        match interpret_ssh("u@h", finished(false, "out", stderr)) {
            Err(RemoteExecutionError::SshConnectionFailed { host, message }) => {
                assert_eq!(host, "u@h");
                assert_eq!(message, stderr);
            }
            other => panic!("unexpected {:?}", other),
        }
    }
    let e = RemoteExecutor::new(Server::parse("u@h").unwrap(), None).unwrap();
    assert!(e.interpret(finished(false, "", "Connection refused")).is_err());
    assert!(e.interpret(ProcessEvent::TimedOut).is_err());
}

#[test]
fn error_messages() {
    assert_eq!(
        RemoteExecutionError::SshConnectionFailed { host: "h".to_string(), message: "m".to_string() }.message(),
        "SSH connection to h failed: m"
    );
    assert_eq!(
        RemoteExecutionError::SshCommandFailed { host: "h".to_string(), message: "m".to_string() }.message(),
        "SSH command execution failed on h: m"
    );
    assert_eq!(
        RemoteExecutionError::Timeout { host: "h".to_string(), timeout_secs: 120 }.message(),
        "timeout executing command on h (exceeded 120s)"
    );
    assert_eq!(
        RemoteExecutionError::AuthenticationFailed { host: "h".to_string(), message: "m".to_string() }.message(),
        "authentication failed for h: m"
    );
    assert_eq!(RemoteExecutionError::SshKeyNotFound { path: "/k".to_string() }.message(), "SSH key not found at /k");
    assert_eq!(RemoteExecutionError::IoError("x".to_string()).message(), "IO error: x");
    assert_eq!(WebhookError::Unauthorized.message(), "unauthorized: invalid token");
    assert_eq!(WebhookError::InvalidPayload("p".to_string()).message(), "invalid payload: p");
    assert_eq!(WebhookError::ExecutionFailed("p".to_string()).message(), "execution failed: p");
    assert_eq!(WebhookError::ServerError("p".to_string()).message(), "server error: p");
}
