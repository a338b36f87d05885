//! Verified core of a multi-tenant media-asset service.
//!
//! The library models the asynchronous processing subsystem: the durable
//! job queue with its claim protocol, the pure image-transformation policy,
//! the object-store key grammar, and the lifecycle reconciliation of
//! soft-deleted projects.  I/O edges (HTTP, database, object storage) live
//! outside the library and exchange plain values with it.

pub mod api;
pub mod catalog;
pub mod errors;
pub mod imaging;
pub mod jobs;
pub mod keys;
pub mod reconcile;
pub mod settings;
pub mod store;
pub mod transform;
pub mod upload;
pub mod worker;

use vstd::prelude::*;

verus! {

/// An ASCII decimal digit, used by the small parsers below.
pub open spec fn spec_is_digit(c: char) -> bool {
    '0' <= c && c <= '9'
}

} // verus!

