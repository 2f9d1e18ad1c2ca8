//! The failures a request can end in, and how each maps to an HTTP status:
//! an invalid identifier, a missing record or an unstorable submission is
//! the client's fault; a store failure or a malformed stored document is the
//! server's; a request that matches no route is not found.

use vstd::prelude::*;

verus! {

use crate::doc::FieldName;

/// What went wrong while serving a request.
#[derive(Clone, Debug)]
pub enum Error {
    /// The identifier in the request path is not a valid record identifier.
    /// Carries the offending identifier text.
    InvalidId(String),
    /// No record exists under the identifier the request names. Carries the
    /// identifier text.
    NotFound(String),
    /// The submitted page count does not fit the stored 32-bit field.
    /// Carries the submitted count.
    InvalidPageCount(usize),
    /// The document store could not run the operation. Carries the store's
    /// own message.
    QueryFailed(String),
    /// A stored document is missing the named field, or holds it with the
    /// wrong shape.
    MalformedField(FieldName),
}

/// The HTTP status for an error.
pub open spec fn spec_error_status(e: Error) -> u16 {
    match e {
        Error::InvalidId(_) => 400,
        Error::NotFound(_) => 404,
        Error::InvalidPageCount(_) => 400,
        Error::QueryFailed(_) => 500,
        Error::MalformedField(_) => 500,
    }
}

/// Map an error to its HTTP status: a bad identifier, a missing record, or
/// a bad submission is the client's error; everything else is the server's.
pub fn error_status(e: &Error) -> (s: u16)
    ensures
        s == spec_error_status(*e),
{
    match e {
        Error::InvalidId(_) => 400,
        Error::NotFound(_) => 404,
        Error::InvalidPageCount(_) => 400,
        Error::QueryFailed(_) => 500,
        Error::MalformedField(_) => 500,
    }
}

/// The status for a rejected request: a request that matched no route is
/// 404; one that failed with an error takes that error's status.
pub fn rejection_status(e: Option<&Error>) -> (s: u16)
    ensures
        e matches Some(err) ==> s == spec_error_status(*err),
        e is None ==> s == 404,
{
    match e {
        Some(err) => error_status(err),
        None => 404,
    }
}

} // verus!
