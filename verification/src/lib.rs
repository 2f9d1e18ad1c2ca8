//! A small book catalogue service: typed records, an opaque hex identifier,
//! a document model for the backing store, and the routing and status rules
//! of the HTTP surface.

use vstd::prelude::*;

pub mod db;
pub mod doc;
pub mod error;
pub mod handler;
pub mod oid;
pub mod router;
pub mod store;

verus! {

/// A stored book record, as returned to clients.
///
/// `added_at` is a timestamp in milliseconds since the Unix epoch, set by the
/// server when the record is created or replaced.
pub struct Book {
    pub id: String,
    pub name: String,
    pub author: String,
    pub num_pages: usize,
    pub added_at: i64,
    pub tags: Vec<String>,
}

} // verus!
