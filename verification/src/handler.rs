//! The handler layer: the request body shape, and the status each
//! operation answers with when it succeeds or fails.

use vstd::prelude::*;

verus! {

use crate::error::Error;
use crate::error::spec_error_status;
use crate::router::Route;

/// A client-submitted book: everything a record holds except the identifier
/// and the server-set timestamp.
pub struct BookRequest {
    pub name: String,
    pub author: String,
    pub num_pages: usize,
    pub tags: Vec<String>,
}

/// The status of a successful operation: creation answers 201, every other
/// operation answers 200.
pub open spec fn spec_success_status(r: Route) -> u16 {
    match r {
        Route::CreateBook => 201,
        _ => 200,
    }
}

/// The status a handler answers with when its operation succeeded.
pub fn success_status(r: &Route) -> (s: u16)
    ensures
        s == spec_success_status(*r),
{
    match r {
        Route::CreateBook => 201,
        _ => 200,
    }
}

/// The status a handler answers with for an operation's outcome: the
/// operation's success status when it succeeded, the error's status when
/// it failed.
pub fn outcome_status(r: &Route, outcome: &Result<(), Error>) -> (s: u16)
    ensures
        outcome is Ok ==> s == spec_success_status(*r),
        outcome matches Err(e) ==> s == spec_error_status(*e),
{
    match outcome {
        Ok(_) => success_status(r),
        Err(e) => crate::error::error_status(e),
    }
}

} // verus!
