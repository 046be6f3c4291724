//! The dead-letter queue whose reports are meant for standard error.

use crate::domain::error::{error_message, Error, ErrorView};
use crate::domain::traits::{texts, DeadLetterQueue};
use vstd::prelude::*;

verus! {

/// The line that reports an error.
pub open spec fn report_line(e: ErrorView) -> Seq<char> {
    "DLQ Report - Error: "@ + error_message(e)
}

/// Keeps every reported error, oldest first. Writing the lines out is left
/// to the caller.
#[derive(Debug)]
pub struct StdErrDLQ {
    /// The errors reported and not yet drained, oldest first.
    pub reports: Vec<Error>,
}

impl StdErrDLQ {
    /// A queue to which nothing was reported.
    pub fn new() -> (queue: Self)
        ensures
            queue.reported() == Seq::<ErrorView>::empty(),
    {
        let queue = StdErrDLQ { reports: Vec::new() };
        assert(queue.reported() =~= Seq::<ErrorView>::empty());
        queue
    }

    /// The line that reports `error`: see [`report_line`].
    pub fn line(error: &Error) -> (text: String)
        ensures
            text@ == report_line(error@),
    {
        let mut text = String::from_str("DLQ Report - Error: ");
        text.append(error.message().as_str());
        text
    }

    /// One line for each reported error, oldest first.
    pub fn lines(&self) -> (lines: Vec<String>)
        ensures
            texts(lines@) == self.reported().map_values(|e: ErrorView| report_line(e)),
    {
        let mut lines: Vec<String> = Vec::new();
        let mut k: usize = 0;
        while k < self.reports.len()
            invariant
                k <= self.reports.len(),
                lines@.len() == k,
                forall|i: int| 0 <= i < k ==> (#[trigger] lines@[i])@ == report_line(
                    self.reports@[i]@,
                ),
            decreases self.reports.len() - k,
        {
            lines.push(StdErrDLQ::line(&self.reports[k]));
            k = k + 1;
        }
        assert(texts(lines@) =~= self.reported().map_values(|e: ErrorView| report_line(e)));
        lines
    }
}

impl StdErrDLQ {
    /// One line for each reported error, oldest first; the queue is empty
    /// afterwards.
    pub fn drain_lines(&mut self) -> (lines: Vec<String>)
        ensures
            texts(lines@) == old(self).reported().map_values(|e: ErrorView| report_line(e)),
            final(self).reported() == Seq::<ErrorView>::empty(),
    {
        let lines = self.lines();
        self.reports = Vec::new();
        assert(self.reported() =~= Seq::<ErrorView>::empty());
        lines
    }
}

impl Default for StdErrDLQ {
    fn default() -> (queue: Self)
        ensures
            queue.reported() == Seq::<ErrorView>::empty(),
    {
        StdErrDLQ::new()
    }
}

impl DeadLetterQueue for StdErrDLQ {
    open spec fn reported(&self) -> Seq<ErrorView> {
        self.reports@.map_values(|e: Error| e@)
    }

    fn report(&mut self, error: &Error) {
        self.reports.push(error.duplicate());
        assert(self.reported() =~= old(self).reported().push(error@));
    }
}

} // verus!
