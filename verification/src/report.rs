//! The result aggregator: renders each report as it arrives, keeps the
//! progress counters, and never mixes errors into the primary output.

use vstd::prelude::*;

use crate::numfmt::dec_str_signed;
use crate::numfmt::i32_to_string;
use crate::task::spec_stderr_block;
use crate::task::stderr_block;
use crate::task::InvocationError;
use crate::task::InvocationResult;

verus! {

/// The annotation placed before the target when the process did not exit
/// with code zero.
pub open spec fn spec_exit_annotation(exit_code: Option<i32>) -> Seq<char> {
    match exit_code {
        Some(c) => if c == 0 {
            Seq::empty()
        } else {
            "[-] Non-zero "@ + dec_str_signed(c as int) + ": "@
        },
        None => "[-] No exit code: "@,
    }
}

/// The per-target header, or nothing when headers are suppressed.
pub open spec fn spec_success_header(
    show_header: bool,
    target: Seq<char>,
    exit_code: Option<i32>,
) -> Seq<char> {
    if show_header {
        "---\n"@ + spec_exit_annotation(exit_code) + "'"@ + target + "'\n"@
    } else {
        Seq::empty()
    }
}

/// The whole block printed for one completed task: header, its standard
/// output, and a labelled block for non-empty standard error.
pub open spec fn spec_success_report(
    show_header: bool,
    target: Seq<char>,
    exit_code: Option<i32>,
    stdout: Seq<char>,
    stderr: Seq<char>,
) -> Seq<char> {
    spec_success_header(show_header, target, exit_code) + stdout + spec_stderr_block(stderr)
}

/// The line written to the error channel for one failed task.
pub open spec fn spec_error_line(message: Seq<char>) -> Seq<char> {
    "---\n! "@ + message
}

/// Renders the annotation for an exit code.
pub fn exit_annotation(exit_code: Option<i32>) -> (r: String)
    ensures
        r@ == spec_exit_annotation(exit_code),
{
    match exit_code {
        Some(c) => {
            if c == 0 {
                let r = String::new();
                proof {
                    assert(r@ =~= spec_exit_annotation(exit_code));
                }
                r
            } else {
                let mut r = "[-] Non-zero ".to_owned();
                let digits = i32_to_string(c);
                r.append(digits.as_str());
                r.append(": ");
                proof {
                    assert(r@ =~= spec_exit_annotation(exit_code));
                }
                r
            }
        },
        None => "[-] No exit code: ".to_owned(),
    }
}

/// Renders the block printed for one completed task.
pub fn format_success(res: &InvocationResult, show_header: bool) -> (r: String)
    ensures
        r@ == spec_success_report(
            show_header,
            res.target@,
            res.exit_code,
            res.stdout@,
            res.stderr@,
        ),
{
    let mut r: String;
    if show_header {
        r = "---\n".to_owned();
        let annotation = exit_annotation(res.exit_code);
        r.append(annotation.as_str());
        r.append("'");
        r.append(res.target.as_str());
        r.append("'\n");
    } else {
        r = String::new();
    }
    r.append(res.stdout.as_str());
    let block = stderr_block(res.stderr.as_str());
    r.append(block.as_str());
    proof {
        assert(r@ =~= spec_success_report(
            show_header,
            res.target@,
            res.exit_code,
            res.stdout@,
            res.stderr@,
        ));
    }
    r
}

/// Renders the line written to the error channel for one failed task.
pub fn format_error(err: &InvocationError) -> (r: String)
    ensures
        r@ == spec_error_line(err.message@),
{
    let mut r = "---\n! ".to_owned();
    r.append(err.message.as_str());
    r
}

/// Whether a completed task's block goes to the error channel: only under
/// the policy that makes a non-zero exit an error, and only when the
/// process did not exit with code zero.
pub fn routed_to_error_channel(res: &InvocationResult, nonzero_is_error: bool) -> (r: bool)
    ensures
        r == (nonzero_is_error && res.exit_code != Some(0i32)),
{
    nonzero_is_error && !matches!(res.exit_code, Some(0))
}

/// The progress counters: total targets and completions so far. Updated
/// only by the aggregator, after each result.
pub struct Progress {
    /// How many targets the run started with.
    pub total: usize,
    /// How many tasks have completed.
    pub done: usize,
}

/// A progress line is logged every `PROGRESS_EVERY`th completion when
/// headers are suppressed.
pub const PROGRESS_EVERY: usize = 10;

impl Progress {
    /// Starts the counters for a run over `total` targets.
    pub fn new(total: usize) -> (r: Progress)
        ensures
            r.total == total,
            r.done == 0,
    {
        Progress { total, done: 0 }
    }

    /// Records one completion.
    pub fn record(&mut self)
        requires
            old(self).done < old(self).total,
        ensures
            final(self).total == old(self).total,
            final(self).done == old(self).done + 1,
    {
        self.done += 1;
    }

    /// Whether a progress line is owed now: headers are suppressed and the
    /// completion count reached a multiple of the reporting period.
    pub fn should_log(&self, show_header: bool) -> (r: bool)
        ensures
            r == (!show_header && self.done % PROGRESS_EVERY == 0),
    {
        !show_header && self.done % PROGRESS_EVERY == 0
    }

    /// How many tasks are still outstanding.
    pub fn remaining(&self) -> (r: usize)
        requires
            self.done <= self.total,
        ensures
            r == self.total - self.done,
    {
        self.total - self.done
    }
}

} // verus!
