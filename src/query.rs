use vstd::prelude::*;

verus! {

/// Tracks whether a query completed successfully; whoever holds it reports
/// `succeeded` when the query is over.
#[derive(Debug)]
pub struct QueryCompletedToken {
    success: bool,
}

impl QueryCompletedToken {
    pub closed spec fn is_success(&self) -> bool {
        self.success
    }

    /// A token for a query that has not completed successfully yet.
    pub fn new() -> (r: QueryCompletedToken)
        ensures
            !r.is_success(),
    {
        QueryCompletedToken { success: false }
    }

    /// Record that this query completed successfully.
    pub fn set_success(&mut self)
        ensures
            final(self).is_success(),
    {
        self.success = true;
    }

    /// Whether the query completed successfully.
    pub fn succeeded(&self) -> (r: bool)
        ensures
            r == self.is_success(),
    {
        self.success
    }
}

} // verus!
