use vstd::prelude::*;

verus! {

/// A classified failure of a header operation.
///
/// The kind records who is at fault and therefore which HTTP status class
/// the caller should map the error to at the boundary.
#[derive(Debug, Clone, PartialEq, Eq)]
pub enum HeaderError {
    /// The client supplied invalid data (maps to a 4xx status).
    CallerFault(String),
    /// A server-side condition (maps to a 5xx status).
    InternalFault(String),
}

impl HeaderError {
    /// The descriptive message carried by the error.
    pub open spec fn message_spec(&self) -> Seq<char> {
        match self {
            HeaderError::CallerFault(m) => m@,
            HeaderError::InternalFault(m) => m@,
        }
    }

    /// True exactly when the error is attributed to the caller.
    pub fn is_caller_fault(&self) -> (r: bool)
        ensures
            r == (self is CallerFault),
    {
        match self {
            HeaderError::CallerFault(_) => true,
            HeaderError::InternalFault(_) => false,
        }
    }

    /// True exactly when the error is attributed to the server.
    pub fn is_internal_fault(&self) -> (r: bool)
        ensures
            r == (self is InternalFault),
    {
        match self {
            HeaderError::CallerFault(_) => false,
            HeaderError::InternalFault(_) => true,
        }
    }

    /// The descriptive message carried by the error.
    pub fn message(&self) -> (r: &String)
        ensures
            r@ == self.message_spec(),
    {
        match self {
            HeaderError::CallerFault(m) => m,
            HeaderError::InternalFault(m) => m,
        }
    }
}

} // verus!
