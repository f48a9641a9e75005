use fanout::config::{build_config, ConfigError, DEFAULT_CONCURRENCY, DEFAULT_TIMEOUT_SECS};
use fanout::numfmt::{i32_to_string, u64_to_string};
use fanout::report::{exit_annotation, format_error, format_success, routed_to_error_channel,
                     Progress};
use fanout::task::{
    settle, spawn_failure_message, stderr_block, timeout_message, wait_failure_message, ErrorKind,
    InvocationError, InvocationResult, Task, TaskEvent,
};

#[test]
fn decimal_rendering() {
    assert_eq!(u64_to_string(0), "0");
    assert_eq!(u64_to_string(7), "7");
    assert_eq!(u64_to_string(10), "10");
    assert_eq!(u64_to_string(90210), "90210");
    assert_eq!(u64_to_string(u64::MAX), "18446744073709551615");
    assert_eq!(i32_to_string(0), "0");
    assert_eq!(i32_to_string(142), "142");
    assert_eq!(i32_to_string(-9), "-9");
    assert_eq!(i32_to_string(i32::MIN), "-2147483648");
}

#[test]
fn stderr_block_only_when_nonempty() {
    assert_eq!(stderr_block(""), "");
    assert_eq!(stderr_block("boom"), "\n[.] stderr:\nboom");
}

#[test]
fn spawn_failure_message_attributes_everything() {
    let args = vec!["status".to_string(), "-sb".to_string()];
    assert_eq!(
        spawn_failure_message(true, "/src/repo", "git", &args, "No such file"),
        "Spawn failed in '/src/repo'. Cmd: 'git', Args: 'status -sb': No such file"
    );
    assert_eq!(
        spawn_failure_message(false, "/src/repo", "git", &args, "No such file"),
        "Spawn failed (--files): Cmd: 'git', Args: 'status -sb': No such file"
    );
}

#[test]
fn wait_and_timeout_messages() {
    assert_eq!(
        wait_failure_message("/tmp/x", "interrupted"),
        "Wait failed for '/tmp/x': interrupted"
    );
    assert_eq!(
        timeout_message("/tmp/x", 3, "partial out", ""),
        "Timed out in '/tmp/x' after 3s.\npartial out"
    );
    assert_eq!(
        timeout_message("/tmp/x", 3, "", "late noise"),
        "Timed out in '/tmp/x' after 3s.\n\n[.] stderr:\nlate noise"
    );
}

fn sample_task() -> Task {
    Task {
        target: "/repos/one".to_string(),
        command: "true".to_string(),
        arguments: Vec::new(),
    }
}

#[test]
fn settle_reports_success_exactly() {
    let outcome = settle(
        &sample_task(),
        true,
        Some(3),
        TaskEvent::Exited {
            exit_code: Some(0),
            stdout: "fine".to_string(),
            stderr: "".to_string(),
        },
    );
    let res = outcome.expect("an exited process is a success report");
    assert_eq!(res.target, "/repos/one");
    assert_eq!(res.exit_code, Some(0));
    assert_eq!(res.stdout, "fine");
    assert_eq!(res.stderr, "");
}

#[test]
fn settle_classifies_each_failure() {
    let spawn = settle(
        &sample_task(),
        true,
        None,
        TaskEvent::SpawnFailed {
            detail: "denied".to_string(),
        },
    )
    .expect_err("a failed spawn is an error report");
    assert_eq!(spawn.kind, ErrorKind::SpawnFailure);
    assert_eq!(
        spawn.message,
        "Spawn failed in '/repos/one'. Cmd: 'true', Args: '': denied"
    );

    let wait = settle(
        &sample_task(),
        true,
        None,
        TaskEvent::WaitFailed {
            detail: "gone".to_string(),
        },
    )
    .expect_err("a failed wait is an error report");
    assert_eq!(wait.kind, ErrorKind::WaitFailure);
    assert_eq!(wait.message, "Wait failed for '/repos/one': gone");

    let timeout = settle(
        &sample_task(),
        true,
        Some(2),
        TaskEvent::DeadlineExpired {
            partial_stdout: "half".to_string(),
            partial_stderr: "".to_string(),
        },
    )
    .expect_err("a deadline that fired is an error report");
    assert_eq!(timeout.kind, ErrorKind::Timeout);
    assert_eq!(timeout.message, "Timed out in '/repos/one' after 2s.\nhalf");
    assert_eq!(timeout.target, "/repos/one");
}

#[test]
fn success_report_layout() {
    let res = InvocationResult {
        target: "/repos/one".to_string(),
        exit_code: Some(0),
        stdout: "all good".to_string(),
        stderr: "".to_string(),
    };
    assert_eq!(format_success(&res, true), "---\n'/repos/one'\nall good");
    assert_eq!(format_success(&res, false), "all good");

    let failed = InvocationResult {
        target: "/repos/two".to_string(),
        exit_code: Some(2),
        stdout: "".to_string(),
        stderr: "warned".to_string(),
    };
    assert_eq!(
        format_success(&failed, true),
        "---\n[-] Non-zero 2: '/repos/two'\n\n[.] stderr:\nwarned"
    );
}

#[test]
fn exit_annotations() {
    assert_eq!(exit_annotation(Some(0)), "");
    assert_eq!(exit_annotation(Some(13)), "[-] Non-zero 13: ");
    assert_eq!(exit_annotation(Some(-1)), "[-] Non-zero -1: ");
    assert_eq!(exit_annotation(None), "[-] No exit code: ");
}

#[test]
fn error_line_prefix() {
    let err = InvocationError {
        target: "x".to_string(),
        message: "Timed out in 'x' after 1s.\n".to_string(),
        kind: ErrorKind::Timeout,
    };
    assert_eq!(format_error(&err), "---\n! Timed out in 'x' after 1s.\n");
}

#[test]
fn progress_counters() {
    let mut p = Progress::new(25);
    assert!(p.should_log(false), "zero completions is a multiple of ten");
    assert!(!p.should_log(true));
    for _ in 0..10 {
        p.record();
    }
    assert!(p.should_log(false));
    assert_eq!(p.remaining(), 15);
    p.record();
    assert!(!p.should_log(false));
    assert_eq!(p.remaining(), 14);
}

#[test]
fn config_defaults_and_rejections() {
    let missing = build_config(true, true, true, None, None, None, false, Vec::new());
    assert_eq!(missing.unwrap_err(), ConfigError::MissingCommand);

    let zero = build_config(
        true,
        true,
        true,
        None,
        Some(0),
        None,
        false,
        vec!["git".to_string()],
    );
    assert_eq!(zero.unwrap_err(), ConfigError::ZeroConcurrency);

    let c = build_config(
        true,
        true,
        true,
        None,
        None,
        None,
        false,
        vec!["git".to_string(), "status".to_string()],
    )
    .expect("a command line with a command is accepted");
    assert_eq!(c.max_concurrent_tasks, DEFAULT_CONCURRENCY);
    assert_eq!(c.config_filename, "repo.conf");
    assert_eq!(c.timeout_secs, Some(DEFAULT_TIMEOUT_SECS));
    assert_eq!(c.command, "git");
    assert_eq!(c.arguments, vec!["status".to_string()]);

    let files_mode = build_config(
        false,
        false,
        false,
        Some("own.conf".to_string()),
        Some(9),
        None,
        false,
        vec!["wc".to_string()],
    )
    .expect("files mode is accepted");
    assert_eq!(files_mode.timeout_secs, None);
    assert_eq!(files_mode.max_concurrent_tasks, 9);
    assert_eq!(files_mode.config_filename, "own.conf");

    let explicit_timeout = build_config(
        true,
        true,
        false,
        None,
        Some(1),
        Some(30),
        true,
        vec!["make".to_string()],
    )
    .expect("an explicit timeout is accepted");
    assert_eq!(explicit_timeout.timeout_secs, Some(30));
    assert!(explicit_timeout.nonzero_is_error);
    assert!(!files_mode.nonzero_is_error);
}

#[test]
fn nonzero_exits_follow_the_policy() {
    let failed = InvocationResult {
        target: "t".to_string(),
        exit_code: Some(3),
        stdout: "".to_string(),
        stderr: "".to_string(),
    };
    let clean = InvocationResult {
        target: "t".to_string(),
        exit_code: Some(0),
        stdout: "".to_string(),
        stderr: "".to_string(),
    };
    assert!(routed_to_error_channel(&failed, true));
    assert!(!routed_to_error_channel(&failed, false));
    assert!(!routed_to_error_channel(&clean, true));
}
