use vstd::prelude::*;

verus! {

/// Failure taxonomy of the authentication core.
///
/// Authentication-level failures map to HTTP 401, validation failures to 400,
/// conflicts (duplicate email on registration) to 409, and backend failures
/// (hashing, token store, signing/serialization/persistence) to 500.
#[derive(Clone, Copy, Debug, PartialEq, Eq, Structural)]
pub enum AuthError {
    /// Bad credentials, or a missing/expired/unresolvable token or code.
    AuthenticationFailure,
    /// An access token whose signature or structure is invalid.
    InvalidToken,
    /// Malformed input or mismatched confirmation fields.
    ValidationFailure,
    /// Duplicate email on registration.
    ConflictFailure,
    /// The password-hashing backend failed.
    HashingFailure,
    /// The token store could not be reached.
    StoreUnavailable,
    /// Signing, serialization or persistence failed.
    InternalFailure,
}

impl AuthError {
    /// The HTTP status code a transport layer should answer with.
    pub open spec fn spec_status_code(self) -> u16 {
        match self {
            AuthError::AuthenticationFailure => 401,
            AuthError::InvalidToken => 401,
            AuthError::ValidationFailure => 400,
            AuthError::ConflictFailure => 409,
            AuthError::HashingFailure => 500,
            AuthError::StoreUnavailable => 500,
            AuthError::InternalFailure => 500,
        }
    }

    pub fn status_code(self) -> (code: u16)
        ensures
            code == self.spec_status_code(),
    {
        match self {
            AuthError::AuthenticationFailure => 401,
            AuthError::InvalidToken => 401,
            AuthError::ValidationFailure => 400,
            AuthError::ConflictFailure => 409,
            AuthError::HashingFailure => 500,
            AuthError::StoreUnavailable => 500,
            AuthError::InternalFailure => 500,
        }
    }
}

} // verus!
