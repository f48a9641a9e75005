//! Draining a child's output stream: one poll at a time, collecting the
//! lines that are already buffered without blocking for more.

use vstd::prelude::*;

use crate::strutil::join_char;
use crate::strutil::spec_join;

verus! {

/// What one non-blocking poll of a line stream found. "Nothing buffered
/// yet" is distinct from "the stream is closed": a stuck producer must not
/// look like a finished one.
pub enum PollOutcome {
    /// One complete line was buffered.
    Line {
        /// The line, without its terminator.
        text: String,
    },
    /// Reading failed; draining stops.
    ReadError {
        /// The OS error text.
        detail: String,
    },
    /// The stream is closed: the producer wrote everything it ever will.
    StreamEnded,
    /// Nothing is buffered right now; draining stops rather than block.
    NotReady,
}

/// The lines drained from one stream so far.
pub struct LineDrain {
    /// The collected lines, in arrival order.
    pub lines: Vec<String>,
}

impl LineDrain {
    /// Starts a drain with nothing collected.
    pub fn new() -> (r: LineDrain)
        ensures
            r.lines@.len() == 0,
    {
        LineDrain { lines: Vec::new() }
    }

    /// Feeds one poll outcome: a line is collected and draining goes on;
    /// anything else leaves the collection unchanged and stops the drain.
    pub fn step(&mut self, outcome: PollOutcome) -> (more: bool)
        ensures
            more <==> outcome is Line,
            (outcome matches PollOutcome::Line { text } ==> final(self).lines.deep_view()
                == old(self).lines.deep_view().push(text@)),
            !(outcome is Line) ==> final(self).lines == old(self).lines,
    {
        match outcome {
            PollOutcome::Line { text } => {
                self.lines.push(text);
                proof {
                    assert(self.lines.deep_view() =~= old(self).lines.deep_view().push(
                        self.lines@.last()@,
                    ));
                }
                true
            },
            PollOutcome::ReadError { detail: _ } => false,
            PollOutcome::StreamEnded => false,
            PollOutcome::NotReady => false,
        }
    }

    /// The collected lines joined with newlines, as the stream's captured
    /// text.
    pub fn finish(&self) -> (r: String)
        ensures
            r@ == spec_join(self.lines.deep_view(), '\n'),
    {
        join_char(&self.lines, '\n')
    }
}

} // verus!
