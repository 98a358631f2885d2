//! The failures that evaluation can report.

use vstd::prelude::*;

verus! {

/// Why an evaluation produced no value.
#[derive(Debug, Clone, Copy, PartialEq, Eq, Structural)]
pub enum Error {
    /// An index of a variable's path failed to evaluate, or evaluated to
    /// something that is no scalar, so that there is no concrete path.
    UnresolvedPath,
    /// The concrete path is bound in no scope.
    UnboundLookup,
}

} // verus!
