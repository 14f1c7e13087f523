//! The kinds of failure an access can end in.
use vstd::prelude::*;

verus! {

#[derive(Clone, Copy, Debug, PartialEq, Eq, Structural)]
pub enum ProcError {
    /// No running process matches the name that was looked up.
    NotFound,
    /// The process exists but access to its memory was refused.
    AccessDenied,
    /// A byte transfer did not complete for the requested size.
    TransferFailed,
    /// A value was read in full but the caller's predicate rejected it.
    ValidationRejected,
}

} // verus!
