//! The ways in which an operation on a story can fail.

use vstd::prelude::*;

verus! {

#[derive(Debug, Clone, Copy, PartialEq, Eq, Hash, Structural)]
pub enum NarrativeError {
    /// The script is malformed, or its text could not be read.
    Load,
    /// The interpreter failed while following the story. The session is
    /// finished: it refuses to go on.
    Runtime,
    /// No choice is on offer under that index.
    InvalidChoice,
    /// The story has no knot, or the knot no stitch, of that name.
    UnknownLocation,
    /// The story has no variable of that name.
    UnknownVariable,
    /// The value is of another type than the variable.
    TypeMismatch,
    /// The variable is of a type that this library does not assign.
    Unsupported,
}

impl NarrativeError {
    /// Whether the session survives the error: all but `Load` and `Runtime`
    /// leave it as it was.
    pub open spec fn is_local(self) -> bool {
        !(self is Load) && !(self is Runtime)
    }

    pub fn is_fatal(self) -> (r: bool)
        ensures
            r == !self.is_local(),
    {
        match self {
            NarrativeError::Load => true,
            NarrativeError::Runtime => true,
            _ => false,
        }
    }
}

} // verus!
