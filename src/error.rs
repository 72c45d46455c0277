use vstd::prelude::*;

verus! {

/// Failures that are reported to the caller rather than absorbed by a retry loop.
#[derive(Clone, Copy, Debug, PartialEq, Eq, Structural)]
pub enum DaError {
    /// A reference key string is not the text of any reference key.
    MalformedReferenceKey,
    /// The service confirmed a blob but its record lacks the blob header.
    ProtocolInvariantViolation,
}

} // verus!
