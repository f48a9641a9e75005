use std::sync::atomic::{AtomicUsize, Ordering};
use std::sync::Arc;
use std::time::{Duration, Instant};

use async_process::{Command, Stdio};
use futures_lite::stream::StreamExt;
use futures_lite::{io::BufReader, AsyncBufRead, AsyncBufReadExt};
use futures_util::stream::FuturesUnordered;
use smol::lock::{Mutex, Semaphore};
use smol_timeout::TimeoutExt;

use fanout::command::prepare_invocation;
use fanout::drain::{LineDrain, PollOutcome};
use fanout::sched::Scheduler;
use fanout::task::{closing_actions, settle, ErrorKind, InvocationError, InvocationResult, Task,
                   TaskAction, TaskEvent};

async fn drain_stream<T: AsyncBufRead + Unpin>(lines: &mut futures_lite::io::Lines<T>) -> String {
    let mut drain = LineDrain::new();
    loop {
        let outcome = match smol::future::poll_once(lines.next()).await {
            Some(Some(Ok(line))) => PollOutcome::Line { text: line },
            Some(Some(Err(e))) => PollOutcome::ReadError {
                detail: e.to_string(),
            },
            Some(None) => PollOutcome::StreamEnded,
            None => PollOutcome::NotReady,
        };
        if !drain.step(outcome) {
            break;
        }
    }
    drain.finish()
}

async fn run_one(
    task: Task,
    use_color: bool,
    in_repos: bool,
    timeout_secs: Option<u64>,
) -> (Result<InvocationResult, InvocationError>, Vec<TaskAction>) {
    let prepared = prepare_invocation(
        task.command.as_str(),
        &task.arguments,
        task.target.as_str(),
        use_color,
        in_repos,
    );
    let mut command = Command::new(task.command.as_str());
    if let Some(dir) = &prepared.workdir {
        command.current_dir(dir);
    }
    command.stdout(Stdio::piped());
    command.stderr(Stdio::piped());
    let mut child = match command.args(&prepared.args).spawn() {
        Ok(child) => child,
        Err(e) => {
            let event = TaskEvent::SpawnFailed {
                detail: e.to_string(),
            };
            let acts = closing_actions(false);
            return (settle(&task, in_repos, timeout_secs, event), acts);
        }
    };
    let mut stdout = BufReader::new(child.stdout.take().unwrap()).lines();
    let mut stderr = BufReader::new(child.stderr.take().unwrap()).lines();
    let event = if let Some(secs) = timeout_secs {
        let waited = child.status().timeout(Duration::from_secs(secs)).await;
        match waited {
            Some(Ok(status)) => TaskEvent::Exited {
                exit_code: status.code(),
                stdout: drain_stream(&mut stdout).await,
                stderr: drain_stream(&mut stderr).await,
            },
            Some(Err(e)) => TaskEvent::WaitFailed {
                detail: e.to_string(),
            },
            None => {
                let _ = child.kill();
                let event = TaskEvent::DeadlineExpired {
                    partial_stdout: drain_stream(&mut stdout).await,
                    partial_stderr: drain_stream(&mut stderr).await,
                };
                let reaped = child.status().timeout(Duration::from_secs(5)).await;
                assert!(
                    reaped.is_some(),
                    "the killed child must no longer be running"
                );
                event
            }
        }
    } else {
        match child.status().await {
            Ok(status) => TaskEvent::Exited {
                exit_code: status.code(),
                stdout: drain_stream(&mut stdout).await,
                stderr: drain_stream(&mut stderr).await,
            },
            Err(e) => TaskEvent::WaitFailed {
                detail: e.to_string(),
            },
        }
    };
    let acts = closing_actions(matches!(event, TaskEvent::DeadlineExpired { .. }));
    (settle(&task, in_repos, timeout_secs, event), acts)
}

fn run_scenario_collect(
    command: &str,
    arguments: Vec<String>,
    targets: Vec<String>,
    concurrency: usize,
    timeout_secs: Option<u64>,
) -> (Vec<Result<InvocationResult, InvocationError>>, usize) {
    let n = targets.len();
    let sched = Arc::new(Mutex::new(Scheduler::new(n, concurrency)));
    let max_running = Arc::new(AtomicUsize::new(0));
    let results = smol::block_on(async {
        let mut tasks = FuturesUnordered::new();
        let semaphore = Arc::new(Semaphore::new(concurrency));
        for (i, target) in targets.into_iter().enumerate() {
            let sem = semaphore.clone();
            let sched = sched.clone();
            let max_running = max_running.clone();
            let task = Task {
                target,
                command: command.to_string(),
                arguments: arguments.clone(),
            };
            tasks.push(smol::spawn(async move {
                let _permit = sem.acquire().await;
                {
                    let mut s = sched.lock().await;
                    assert!(s.can_start(i), "no free slot despite held permit");
                    s.start_task(i);
                    max_running.fetch_max(s.running, Ordering::SeqCst);
                }
                let (outcome, acts) = run_one(task, false, true, timeout_secs).await;
                assert_eq!(*acts.last().unwrap(), TaskAction::ReleaseSlot);
                {
                    let mut s = sched.lock().await;
                    s.settle_task(i);
                }
                outcome
            }));
        }
        let mut results = Vec::new();
        while let Some(result) = tasks.next().await {
            results.push(result);
        }
        results
    });
    smol::block_on(async {
        let s = sched.lock().await;
        assert!(s.is_complete(), "not every task settled");
        assert_eq!(s.settled, n);
    });
    (results, max_running.load(Ordering::SeqCst))
}

#[test]
fn scenario_echo_five_targets() {
    let targets: Vec<String> = (0..5).map(|_| ".".to_string()).collect();
    let (results, max_running) =
        run_scenario_collect("echo", vec!["hi".to_string()], targets, 2, None);
    assert_eq!(results.len(), 5);
    for result in &results {
        let res = result.as_ref().expect("every echo must succeed");
        assert_eq!(res.exit_code, Some(0));
        assert_eq!(res.stdout, "hi");
        assert_eq!(res.stderr, "");
    }
    assert!(max_running <= 2);
}

#[test]
fn scenario_sleep_times_out() {
    let started = Instant::now();
    let (results, _) = run_scenario_collect(
        "sleep",
        vec!["5".to_string()],
        vec![".".to_string()],
        1,
        Some(1),
    );
    let elapsed = started.elapsed();
    assert_eq!(results.len(), 1);
    let err = results[0].as_ref().expect_err("sleep 5 must time out");
    assert_eq!(err.kind, ErrorKind::Timeout);
    assert!(err.message.starts_with("Timed out in '.' after 1s."));
    assert!(
        elapsed < Duration::from_secs(3),
        "timeout must fire near the deadline, not at process exit"
    );
}

#[test]
fn scenario_spawn_failure_three_targets() {
    let targets: Vec<String> = (0..3).map(|_| ".".to_string()).collect();
    let (results, _) = run_scenario_collect(
        "this-command-does-not-exist-anywhere",
        Vec::new(),
        targets,
        4,
        None,
    );
    assert_eq!(results.len(), 3);
    for result in &results {
        let err = result.as_ref().expect_err("the spawn must fail");
        assert_eq!(err.kind, ErrorKind::SpawnFailure);
        assert!(err.message.starts_with("Spawn failed in '.'."));
    }
}

#[test]
fn scenario_twenty_targets_serial() {
    let targets: Vec<String> = (0..20).map(|_| ".".to_string()).collect();
    let (results, max_running) =
        run_scenario_collect("echo", vec!["ok".to_string()], targets, 1, None);
    assert_eq!(results.len(), 20);
    assert!(max_running <= 1, "concurrency limit 1 must never be exceeded");
    for result in &results {
        assert!(result.is_ok());
    }
}

#[test]
fn exit_code_and_stderr_are_captured() {
    let (results, _) = run_scenario_collect(
        "sh",
        vec![
            "-c".to_string(),
            "echo out; echo err 1>&2; exit 7".to_string(),
        ],
        vec![".".to_string()],
        1,
        None,
    );
    let res = results[0].as_ref().expect("sh itself must run");
    assert_eq!(res.exit_code, Some(7));
    assert_eq!(res.stdout, "out");
    assert_eq!(res.stderr, "err");
}
