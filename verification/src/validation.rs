//! Marker for request bodies that passed declarative field validation.
//!
//! Validation itself is a collaborator at the HTTP boundary; the
//! library only carries the validated value.

use vstd::prelude::*;

verus! {

/// A request body that passed field validation at the boundary.
pub struct ValidatedJson<T>(pub T);

impl<T> ValidatedJson<T> {
    /// Unwrap the validated value.
    pub fn into_inner(self) -> (r: T)
        ensures
            r == self.0,
    {
        self.0
    }
}

} // verus!
