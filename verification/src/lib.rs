//! Bounded-concurrency external-command runner.
//!
//! The engine executes a command once per target, in parallel up to a
//! configured concurrency limit, enforces a per-invocation deadline,
//! captures the child's output, and reports exactly one result per task.

pub mod command;
pub mod config;
pub mod dedupe;
pub mod drain;
pub mod numfmt;
pub mod prompt;
pub mod report;
pub mod sched;
pub mod settings;
pub mod strutil;
pub mod targets;
pub mod task;

