//! Cooperative cancellation of a job.

use vstd::prelude::*;

verus! {

/// One-shot signal that asks the workers of a job to stop. Once set it stays
/// set: there is no way back.
#[derive(Debug, PartialEq, Eq)]
pub struct CancellationToken {
    set: bool,
}

impl CancellationToken {
    /// Cancellation has been requested.
    pub closed spec fn is_set_spec(&self) -> bool {
        self.set
    }

    /// A fresh token, not set.
    pub fn new() -> (token: CancellationToken)
        ensures
            !token.is_set(),
    {
        CancellationToken { set: false }
    }

    /// Tells whether cancellation has been requested.
    #[verifier::when_used_as_spec(is_set_spec)]
    pub fn is_set(&self) -> (set: bool)
        ensures
            set == self.is_set(),
    {
        self.set
    }

    /// Requests cancellation. Returns whether this call was the one that set
    /// the token.
    pub fn cancel(&mut self) -> (first: bool)
        ensures
            final(self).is_set(),
            first == !old(self).is_set(),
    {
        let first = !self.set;
        self.set = true;
        first
    }
}

} // verus!
