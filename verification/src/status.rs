//! The display-only status summary: an owned piece of session context,
//! passed explicitly rather than kept in process-wide shared state. It is
//! not part of the request/response contract.

use vstd::prelude::*;

verus! {

/// Holds the human-readable summary of the running task, if any.
pub struct StatusSummaryCell {
    summary: Option<String>,
}

impl View for StatusSummaryCell {
    type V = Option<Seq<char>>;

    closed spec fn view(&self) -> Option<Seq<char>> {
        self.summary.deep_view()
    }
}

impl StatusSummaryCell {
    /// A cell with no summary.
    pub fn new() -> (c: Self)
        ensures
            c@ is None,
    {
        StatusSummaryCell { summary: None }
    }

    /// Replace the summary.
    pub fn set_status_summary(&mut self, summary: Option<String>)
        ensures
            final(self)@ == summary.deep_view(),
    {
        self.summary = summary;
    }

    /// The current summary.
    pub fn status_summary(&self) -> (r: Option<String>)
        ensures
            r.deep_view() == self@,
    {
        match &self.summary {
            Some(s) => Some(s.clone()),
            None => None,
        }
    }
}

} // verus!
