//! The error taxonomy of the resolution service. Every failure a storage
//! adapter can raise is translated into one of these at the service
//! boundary; callers above it never see raw driver errors.

use vstd::prelude::*;

verus! {

/// Why a service operation failed.
#[derive(PartialEq, Eq, Structural, Clone, Copy, Debug)]
pub enum ServiceError {
    /// Client-caused: a malformed long URL or short code.
    InvalidInput,
    /// The short code has a valid shape but no live mapping.
    NotFound,
    /// The authoritative store could not complete the operation.
    StoreUnavailable,
    /// The fast cache could not complete the operation. Never surfaced by
    /// the resolve path, which degrades a cache failure to a miss.
    CacheUnavailable,
}

/// The HTTP status each error maps to: client-caused errors to 4xx,
/// backend failures to 5xx.
pub open spec fn spec_http_status(e: ServiceError) -> u16 {
    match e {
        ServiceError::InvalidInput => 400,
        ServiceError::NotFound => 404,
        ServiceError::StoreUnavailable => 500,
        ServiceError::CacheUnavailable => 502,
    }
}

/// Translate an error into the HTTP status of the external interface.
pub fn http_status_of(e: &ServiceError) -> (r: u16)
    ensures
        r == spec_http_status(*e),
{
    match e {
        ServiceError::InvalidInput => 400,
        ServiceError::NotFound => 404,
        ServiceError::StoreUnavailable => 500,
        ServiceError::CacheUnavailable => 502,
    }
}

} // verus!
