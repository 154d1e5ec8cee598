//! Errors that the storage layer hands back to the interpreter.
use crate::language::ModuleId;
use vstd::prelude::*;

verus! {

/// Why an operation failed.
#[derive(Clone, Copy, Debug, PartialEq, Eq, Structural)]
pub enum StatusCode {
    /// The transaction ran and its effects were applied.
    Executed,
    /// A published module declares an address other than its sender's.
    ModuleAddressDoesNotMatchSender,
    /// A value or type did not have the shape that a balance needs.
    InternalTypeError,
    /// A value could not be serialized against its layout.
    UnknownInvariantViolationError,
    /// Any other status the interpreter reports, by its number.
    Other(u64),
}

/// Where an error arose.
#[derive(Debug, PartialEq, Eq)]
pub enum Location {
    Undefined,
    Module(ModuleId),
}

/// An error with its status and location.
#[derive(Debug, PartialEq, Eq)]
pub struct VMError {
    pub major_status: StatusCode,
    pub location: Location,
}

impl VMError {
    /// An error of `status` at no particular location.
    pub fn new(status: StatusCode) -> (r: VMError)
        ensures
            r.major_status == status,
            r.location == Location::Undefined,
    {
        VMError { major_status: status, location: Location::Undefined }
    }
}

/// What one resolver in the read chain says about a resource.
#[derive(Debug, PartialEq, Eq)]
pub enum ResolverResult {
    /// The resolver owns the resource: this is the answer.
    Resolved(Result<Option<Vec<u8>>, VMError>),
    /// The resolver does not own the resource: ask the next one.
    Unresolved,
}

/// A resolver's answer as values: `None` when it leaves the resource to the next resolver.
pub open spec fn resolution(r: ResolverResult) -> Option<Result<Option<Seq<u8>>, StatusCode>> {
    match r {
        ResolverResult::Unresolved => None,
        ResolverResult::Resolved(Ok(Some(v))) => Some(Ok(Some(v@))),
        ResolverResult::Resolved(Ok(None)) => Some(Ok(None)),
        ResolverResult::Resolved(Err(e)) => Some(Err(e.major_status)),
    }
}

} // verus!
