use vstd::prelude::*;

verus! {

/// The error cases that datastore operations report. Errors surface at the
/// call that caused them; they are never deferred to transaction release.
#[derive(Clone, Copy, Debug, PartialEq, Eq, Structural)]
pub enum Error {
    /// An input failed validation, such as a type name with characters
    /// outside the allowed set, or an id of zero where one is disallowed.
    InvalidValue,
    /// The addressed entity does not exist where the operation requires it.
    NotFound,
    /// An id that should be fresh is already taken.
    UuidTaken,
    /// An id or counter allocation overflowed its range.
    OutOfRange,
    /// The underlying backend failed.
    BackendError,
    /// A persisted record could not be decoded.
    SerializationError,
}

impl Error {
    /// A short description of the error, for callers that report it.
    pub fn as_msg(&self) -> (r: &'static str)
        ensures
            *self is InvalidValue ==> r@ == "invalid value"@,
            *self is NotFound ==> r@ == "not found"@,
    {
        match self {
            Error::InvalidValue => "invalid value",
            Error::NotFound => "not found",
            Error::UuidTaken => "id already taken",
            Error::OutOfRange => "out of range",
            Error::BackendError => "backend error",
            Error::SerializationError => "serialization error",
        }
    }
}

} // verus!
