//! One task is one invocation of the command for one target. Settling a task
//! turns the one event that ended it into the one report it yields.

use vstd::prelude::*;

use crate::numfmt::dec_str;
use crate::numfmt::u64_to_string;
use crate::strutil::join_char;
use crate::strutil::spec_join;

verus! {

/// One (command, target) execution unit, immutable once created.
pub struct Task {
    /// The location the command runs against.
    pub target: String,
    /// The executable to spawn.
    pub command: String,
    /// The arguments handed to the executable, in order.
    pub arguments: Vec<String>,
}

/// Why a task failed.
#[derive(Clone, Copy, PartialEq, Eq, Structural, Debug)]
pub enum ErrorKind {
    /// The process could not start; never raced against the deadline.
    SpawnFailure,
    /// The process started but its exit status could not be obtained.
    WaitFailure,
    /// The deadline passed before the process exited.
    Timeout,
}

/// The report of a task whose process ran to completion.
#[derive(Debug)]
pub struct InvocationResult {
    /// The task's target.
    pub target: String,
    /// The exit code, when the process exited with one.
    pub exit_code: Option<i32>,
    /// Everything the child had flushed to standard output.
    pub stdout: String,
    /// Everything the child had flushed to standard error.
    pub stderr: String,
}

/// The report of a task that failed.
#[derive(Debug)]
pub struct InvocationError {
    /// The task's target.
    pub target: String,
    /// The diagnostic line, attributing the failure.
    pub message: String,
    /// The failure class.
    pub kind: ErrorKind,
}

/// The one event that ends a task's execution. The driver feeds `Exited`
/// only when the wait resolved before the deadline, and `DeadlineExpired`
/// only when the deadline fired first.
pub enum TaskEvent {
    /// The process could not be spawned; `detail` is the OS error text.
    SpawnFailed {
        /// The OS error text.
        detail: String,
    },
    /// The process exited before the deadline, with its drained output.
    Exited {
        /// The exit code, when the process exited with one.
        exit_code: Option<i32>,
        /// The drained standard output.
        stdout: String,
        /// The drained standard error.
        stderr: String,
    },
    /// The exit status could not be obtained; `detail` is the OS error text.
    WaitFailed {
        /// The OS error text.
        detail: String,
    },
    /// The deadline fired first; the output drained so far is attached.
    DeadlineExpired {
        /// Standard output captured before the deadline.
        partial_stdout: String,
        /// Standard error captured before the deadline.
        partial_stderr: String,
    },
}

/// The labelled block appended for non-empty standard error, empty otherwise.
pub open spec fn spec_stderr_block(stderr: Seq<char>) -> Seq<char> {
    if stderr.len() == 0 {
        Seq::empty()
    } else {
        "\n[.] stderr:\n"@ + stderr
    }
}

/// The diagnostic for a process that could not start.
pub open spec fn spec_spawn_failure_message(
    in_repos: bool,
    target: Seq<char>,
    command: Seq<char>,
    arguments: Seq<Seq<char>>,
    detail: Seq<char>,
) -> Seq<char> {
    let tail = command + "', Args: '"@ + spec_join(arguments, ' ') + "': "@ + detail;
    if in_repos {
        "Spawn failed in '"@ + target + "'. Cmd: '"@ + tail
    } else {
        "Spawn failed (--files): Cmd: '"@ + tail
    }
}

/// The diagnostic for a process whose exit status could not be obtained.
pub open spec fn spec_wait_failure_message(target: Seq<char>, detail: Seq<char>) -> Seq<char> {
    "Wait failed for '"@ + target + "': "@ + detail
}

/// The diagnostic for a task that timed out, carrying the partial output.
pub open spec fn spec_timeout_message(
    target: Seq<char>,
    deadline_secs: nat,
    partial_stdout: Seq<char>,
    partial_stderr: Seq<char>,
) -> Seq<char> {
    "Timed out in '"@ + target + "' after "@ + dec_str(deadline_secs) + "s.\n"@
        + partial_stdout + spec_stderr_block(partial_stderr)
}

/// Builds the block appended for non-empty standard error.
pub fn stderr_block(stderr: &str) -> (r: String)
    ensures
        r@ == spec_stderr_block(stderr@),
{
    if stderr.unicode_len() == 0 {
        let r = String::new();
        proof {
            assert(r@ =~= spec_stderr_block(stderr@));
        }
        r
    } else {
        let mut r = "\n[.] stderr:\n".to_owned();
        r.append(stderr);
        r
    }
}

/// Builds the diagnostic for a process that could not start.
pub fn spawn_failure_message(
    in_repos: bool,
    target: &str,
    command: &str,
    arguments: &Vec<String>,
    detail: &str,
) -> (r: String)
    ensures
        r@ == spec_spawn_failure_message(
            in_repos,
            target@,
            command@,
            arguments.deep_view(),
            detail@,
        ),
{
    let mut m: String;
    if in_repos {
        m = "Spawn failed in '".to_owned();
        m.append(target);
        m.append("'. Cmd: '");
    } else {
        m = "Spawn failed (--files): Cmd: '".to_owned();
    }
    m.append(command);
    m.append("', Args: '");
    let joined = join_char(arguments, ' ');
    m.append(joined.as_str());
    m.append("': ");
    m.append(detail);
    proof {
        assert(m@ =~= spec_spawn_failure_message(
            in_repos,
            target@,
            command@,
            arguments.deep_view(),
            detail@,
        ));
    }
    m
}

/// Builds the diagnostic for a process whose exit status could not be obtained.
pub fn wait_failure_message(target: &str, detail: &str) -> (r: String)
    ensures
        r@ == spec_wait_failure_message(target@, detail@),
{
    let mut m = "Wait failed for '".to_owned();
    m.append(target);
    m.append("': ");
    m.append(detail);
    proof {
        assert(m@ =~= spec_wait_failure_message(target@, detail@));
    }
    m
}

/// Builds the diagnostic for a task that timed out.
pub fn timeout_message(
    target: &str,
    deadline_secs: u64,
    partial_stdout: &str,
    partial_stderr: &str,
) -> (r: String)
    ensures
        r@ == spec_timeout_message(
            target@,
            deadline_secs as nat,
            partial_stdout@,
            partial_stderr@,
        ),
{
    let mut m = "Timed out in '".to_owned();
    m.append(target);
    m.append("' after ");
    let secs = u64_to_string(deadline_secs);
    m.append(secs.as_str());
    m.append("s.\n");
    m.append(partial_stdout);
    let block = stderr_block(partial_stderr);
    m.append(block.as_str());
    proof {
        assert(m@ =~= spec_timeout_message(
            target@,
            deadline_secs as nat,
            partial_stdout@,
            partial_stderr@,
        ));
    }
    m
}

/// Turns the one event that ended a task into its one report.
///
/// A process that exited before the deadline is reported as a result with
/// its exit code and output, never as an error; every other ending is
/// reported as exactly one error of the matching kind.
pub fn settle(
    task: &Task,
    in_repos: bool,
    deadline_secs: Option<u64>,
    event: TaskEvent,
) -> (r: Result<InvocationResult, InvocationError>)
    requires
        event is DeadlineExpired ==> deadline_secs is Some,
    ensures
        r is Ok <==> event is Exited,
        (event matches TaskEvent::Exited { exit_code, stdout, stderr } ==> {
            &&& r matches Ok(res)
            &&& res.target@ == task.target@
            &&& res.exit_code == exit_code
            &&& res.stdout@ == stdout@
            &&& res.stderr@ == stderr@
        }),
        (event matches TaskEvent::SpawnFailed { detail } ==> {
            &&& r matches Err(e)
            &&& e.kind == ErrorKind::SpawnFailure
            &&& e.target@ == task.target@
            &&& e.message@ == spec_spawn_failure_message(
                in_repos,
                task.target@,
                task.command@,
                task.arguments.deep_view(),
                detail@,
            )
        }),
        (event matches TaskEvent::WaitFailed { detail } ==> {
            &&& r matches Err(e)
            &&& e.kind == ErrorKind::WaitFailure
            &&& e.target@ == task.target@
            &&& e.message@ == spec_wait_failure_message(task.target@, detail@)
        }),
        (event matches TaskEvent::DeadlineExpired { partial_stdout, partial_stderr } ==> {
            &&& r matches Err(e)
            &&& e.kind == ErrorKind::Timeout
            &&& e.target@ == task.target@
            &&& e.message@ == spec_timeout_message(
                task.target@,
                deadline_secs.unwrap() as nat,
                partial_stdout@,
                partial_stderr@,
            )
        }),
{
    match event {
        TaskEvent::Exited { exit_code, stdout, stderr } => Ok(InvocationResult {
            target: task.target.clone(),
            exit_code,
            stdout,
            stderr,
        }),
        TaskEvent::SpawnFailed { detail } => {
            let message = spawn_failure_message(
                in_repos,
                task.target.as_str(),
                task.command.as_str(),
                &task.arguments,
                detail.as_str(),
            );
            Err(InvocationError {
                target: task.target.clone(),
                message,
                kind: ErrorKind::SpawnFailure,
            })
        },
        TaskEvent::WaitFailed { detail } => {
            let message = wait_failure_message(task.target.as_str(), detail.as_str());
            Err(InvocationError {
                target: task.target.clone(),
                message,
                kind: ErrorKind::WaitFailure,
            })
        },
        TaskEvent::DeadlineExpired { partial_stdout, partial_stderr } => {
            let secs = deadline_secs.unwrap();
            let message = timeout_message(
                task.target.as_str(),
                secs,
                partial_stdout.as_str(),
                partial_stderr.as_str(),
            );
            Err(InvocationError {
                target: task.target.clone(),
                message,
                kind: ErrorKind::Timeout,
            })
        },
    }
}

/// What the driver does for a task as it ends, in order.
#[derive(Clone, Copy, PartialEq, Eq, Structural, Debug)]
pub enum TaskAction {
    /// Send the child a best-effort termination signal; its failure is
    /// swallowed, since the child may have exited in the interim.
    KillChild,
    /// Hand the task's one report to the aggregator.
    Report,
    /// Release the task's concurrency slot.
    ReleaseSlot,
}

/// The actions owed as a task ends, `timed_out` saying whether its deadline
/// fired first: a timed-out child is signalled to terminate before anything
/// else; on every path the one report is handed over and then the slot is
/// released, so no task reports twice or holds its slot beyond its
/// resolution.
pub fn closing_actions(timed_out: bool) -> (acts: Vec<TaskAction>)
    ensures
        timed_out ==> acts@ == seq![
            TaskAction::KillChild,
            TaskAction::Report,
            TaskAction::ReleaseSlot,
        ],
        !timed_out ==> acts@ == seq![TaskAction::Report, TaskAction::ReleaseSlot],
        acts@.last() == TaskAction::ReleaseSlot,
        count_action(acts@, TaskAction::Report) == 1,
        count_action(acts@, TaskAction::ReleaseSlot) == 1,
{
    let mut acts: Vec<TaskAction> = Vec::new();
    if timed_out {
        acts.push(TaskAction::KillChild);
    }
    acts.push(TaskAction::Report);
    acts.push(TaskAction::ReleaseSlot);
    proof {
        if timed_out {
            assert(acts@ =~= seq![
                TaskAction::KillChild,
                TaskAction::Report,
                TaskAction::ReleaseSlot,
            ]);
            reveal_with_fuel(count_action, 4);
        } else {
            assert(acts@ =~= seq![TaskAction::Report, TaskAction::ReleaseSlot]);
            reveal_with_fuel(count_action, 3);
        }
    }
    acts
}

/// How many of the actions equal `a`.
pub open spec fn count_action(acts: Seq<TaskAction>, a: TaskAction) -> nat
    decreases acts.len(),
{
    if acts.len() == 0 {
        0
    } else {
        count_action(acts.drop_last(), a) + if acts.last() == a {
            1nat
        } else {
            0nat
        }
    }
}

} // verus!
