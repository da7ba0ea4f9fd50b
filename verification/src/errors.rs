//! The error taxonomy of the operation surface.
//!
//! Authorization failures are immediate and non-retryable. Claim and release
//! failures are deliberately not errors: they collapse into an empty result,
//! so that a caller who is not the current owner learns nothing about
//! existence, ownership or expiry of a coupon.

use vstd::prelude::*;

verus! {

#[derive(Clone, Copy, Debug, PartialEq, Eq, Structural)]
pub enum ApiError {
    /// No, malformed, invalid or expired token.
    Unauthorized,
    /// Valid token, but insufficient role or unknown identity.
    Forbidden,
    /// Uniqueness violation or malformed input.
    ValidationFailure,
}

impl ApiError {
    /// A short human-facing description of the error.
    pub fn message(&self) -> (r: &'static str)
        ensures
            *self == ApiError::Unauthorized ==> r@ == "Unauthorized: missing bearer token"@,
            *self == ApiError::Forbidden ==> r@ == "Forbidden: admin required"@,
            *self == ApiError::ValidationFailure ==> r@ == "Validation failure"@,
    {
        match self {
            ApiError::Unauthorized => "Unauthorized: missing bearer token",
            ApiError::Forbidden => "Forbidden: admin required",
            ApiError::ValidationFailure => "Validation failure",
        }
    }
}

} // verus!
