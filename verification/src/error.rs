//! The ways in which a session, or a pattern, can refuse a caller.

use vstd::prelude::*;

verus! {

/// What went wrong.
#[derive(Clone, Copy, Debug, PartialEq, Eq, Structural)]
pub enum Error {
    /// The session was finished while operations were still owed, or the
    /// underlying sponge refused to finish.
    ParameterUsageMismatch,
    /// The requested operation is not what the pattern expects next: the
    /// pattern is exhausted, expects the other kind, or expects fewer elements.
    ProtocolViolation,
    /// The session was released while operations were still owed.
    UnterminatedSession,
    /// Merging neighbouring operations gives a length beyond `u32::MAX`.
    LengthOverflow,
}

} // verus!
