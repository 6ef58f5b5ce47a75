//! The failure taxonomy of the core, and its classification for the
//! HTTP boundary.

use vstd::prelude::*;

verus! {

/// Every failure a CRUD or authentication operation can surface.
///
/// Failures are always returned as typed values, never swallowed; the one
/// deliberate exception is the login-mismatch path, which reports a single
/// uniform outcome so that a caller cannot learn which credential check
/// failed (see [`crate::auth::auth_user`]).
#[derive(Debug)]
pub enum Error {
    /// The transport to the backing store failed.
    ConnectionError,
    /// No pooled connection became available within the configured wait.
    PoolExhausted,
    /// The backing store rejected or failed a statement.
    QueryFailed { message: String },
    /// A uniqueness, foreign-key or check constraint rejected a write.
    ConstraintViolation { table_name: String },
    /// The optimistic-update precondition failed: no row carries the
    /// caller's last-known key.
    KeyNotFound { table_name: String },
    /// A result row was missing a declared column or held a value of the
    /// wrong type.
    DeserializationError { table_name: String },
    /// A request routed a CRUD operation to a table that does not exist.
    UnknownTable { table: String },
    /// Pagination parameters outside their contract.
    InvalidArgument,
    /// The session is missing, expired, or lacks the required privilege.
    Unauthorized,
}

impl Error {
    /// The HTTP status class under which the boundary reports this failure:
    /// rejected writes keep the dedicated constraint-violation status the
    /// panel's client expects, caller mistakes are client errors, session
    /// failures are unauthorized, and everything else is a server error.
    pub fn http_status(&self) -> (status: u16)
        ensures
            status == self.spec_http_status(),
    {
        match self {
            Error::ConstraintViolation { .. } => 278,
            Error::KeyNotFound { .. } => 400,
            Error::UnknownTable { .. } => 400,
            Error::DeserializationError { .. } => 400,
            Error::InvalidArgument => 400,
            Error::Unauthorized => 401,
            Error::ConnectionError => 500,
            Error::PoolExhausted => 500,
            Error::QueryFailed { .. } => 500,
        }
    }

    /// The status classification as a mathematical function of the variant.
    pub open spec fn spec_http_status(&self) -> u16 {
        match self {
            Error::ConstraintViolation { .. } => 278u16,
            Error::KeyNotFound { .. } => 400u16,
            Error::UnknownTable { .. } => 400u16,
            Error::DeserializationError { .. } => 400u16,
            Error::InvalidArgument => 400u16,
            Error::Unauthorized => 401u16,
            Error::ConnectionError => 500u16,
            Error::PoolExhausted => 500u16,
            Error::QueryFailed { .. } => 500u16,
        }
    }
}

} // verus!
