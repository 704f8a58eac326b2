//! Error taxonomy of the service layer and its wire-facing form.
//!
//! Store or infrastructure failures collapse to an internal error; all
//! credential failures are reported uniformly as unauthorized so that no
//! detail about account existence leaks to the client.

use vstd::prelude::*;

verus! {

/// Outcome classes of the service operations.
#[derive(Debug, Clone, PartialEq, Eq)]
pub enum ServiceError {
    /// Store or infrastructure failure; details never cross the boundary.
    InternalServer,
    /// Bad, expired or mismatched credential, code or token.
    Unauthorized,
    /// The referenced entity does not exist.
    NotFound,
    /// Uniqueness violation on the named field.
    Conflict(String),
}

impl ServiceError {
    /// HTTP status code this error maps to.
    pub fn status_code(&self) -> (code: u16)
        ensures
            code == match self {
                ServiceError::InternalServer => 500u16,
                ServiceError::Unauthorized => 401u16,
                ServiceError::NotFound => 404u16,
                ServiceError::Conflict(_) => 409u16,
            },
    {
        match self {
            ServiceError::InternalServer => 500,
            ServiceError::Unauthorized => 401,
            ServiceError::NotFound => 404,
            ServiceError::Conflict(_) => 409,
        }
    }
}

/// Wire-facing error shape: the service taxonomy plus the request-body
/// validation failure that never reaches the service layer.
#[derive(Debug, Clone, PartialEq, Eq)]
pub enum ErrorDto {
    Internal,
    InvalidData,
    InvalidCredentials,
    NotFound,
    Conflict(String),
}

impl ErrorDto {
    /// HTTP status code this error maps to.
    pub fn status_code(&self) -> (code: u16)
        ensures
            code == match self {
                ErrorDto::Internal => 500u16,
                ErrorDto::InvalidData => 400u16,
                ErrorDto::InvalidCredentials => 401u16,
                ErrorDto::NotFound => 404u16,
                ErrorDto::Conflict(_) => 409u16,
            },
    {
        match self {
            ErrorDto::Internal => 500,
            ErrorDto::InvalidData => 400,
            ErrorDto::InvalidCredentials => 401,
            ErrorDto::NotFound => 404,
            ErrorDto::Conflict(_) => 409,
        }
    }

    /// How a service error is reported on the wire.
    pub open spec fn spec_of_service(e: ServiceError) -> ErrorDto {
        match e {
            ServiceError::InternalServer => ErrorDto::Internal,
            ServiceError::Unauthorized => ErrorDto::InvalidCredentials,
            ServiceError::NotFound => ErrorDto::NotFound,
            ServiceError::Conflict(field) => ErrorDto::Conflict(field),
        }
    }

    /// Collapse a service error to its wire form.
    pub fn of_service(e: ServiceError) -> (r: ErrorDto)
        ensures
            r == ErrorDto::spec_of_service(e),
    {
        match e {
            ServiceError::InternalServer => ErrorDto::Internal,
            ServiceError::Unauthorized => ErrorDto::InvalidCredentials,
            ServiceError::NotFound => ErrorDto::NotFound,
            ServiceError::Conflict(field) => ErrorDto::Conflict(field),
        }
    }
}

} // verus!
